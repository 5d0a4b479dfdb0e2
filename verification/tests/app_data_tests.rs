use rumester::app_data::{
    appdata_dir_in, cleanup_app, get_binary_name, get_binary_type, get_cache_dir,
    get_deployments_dir, get_deployments_download_dir, get_dxvk_state_dir, get_prefix_dir,
    get_webview_installed, get_wineroot_string, is_known_app_name, local_appdata_dir_for,
    parse_reg_query_output, parse_version, prefix_path_for, read_state_file,
    webview_version_check, write_state_file,
};

#[test]
fn data_directory_layout() {
    let d = appdata_dir_in("/home/u/.local/share");
    assert_eq!(d, "/home/u/.local/share/rumester");
    assert_eq!(get_cache_dir(&d), "/home/u/.local/share/rumester/cache");
    assert_eq!(get_deployments_download_dir(&d), "/home/u/.local/share/rumester/downloads");
    assert_eq!(get_deployments_dir(&d), "/home/u/.local/share/rumester/deployments");
    assert_eq!(get_prefix_dir(&d), "/home/u/.local/share/rumester/prefixes");
    assert_eq!(prefix_path_for(&d, "player"), "/home/u/.local/share/rumester/prefixes/player");
    assert_eq!(get_dxvk_state_dir("/p/studio"), "/p/studio/dxvk_state");
}

#[test]
fn local_appdata_inside_prefix() {
    assert_eq!(
        local_appdata_dir_for("/p/player", "Jane Doe"),
        "/p/player/drive_c/users/Jane Doe/AppData/Local"
    );
}

#[test]
fn binary_types_and_names() {
    assert_eq!(get_binary_type("player"), "WindowsPlayer");
    assert_eq!(get_binary_type("studio"), "WindowsStudio64");
    assert_eq!(get_binary_name("player"), "RobloxPlayerBeta.exe");
    assert_eq!(get_binary_name("studio"), "RobloxStudioBeta.exe");
    assert!(is_known_app_name("player"));
    assert!(is_known_app_name("studio"));
    assert!(!is_known_app_name("Player"));
    assert!(!is_known_app_name(""));
}

#[test]
fn wineroot_is_kept() {
    assert_eq!(get_wineroot_string(Some("/opt/wine")), Some("/opt/wine".to_string()));
    assert_eq!(get_wineroot_string(None), None);
}

#[test]
fn cleanup_reports_a_failed_kill() {
    assert_eq!(cleanup_app(Ok(())), Ok(()));
    assert_eq!(
        cleanup_app(Err("no such prefix".to_string())),
        Err("Failed to kill prefix: no such prefix".to_string())
    );
}

#[test]
fn state_files_round_trip() {
    assert_eq!(write_state_file(true), "1");
    assert_eq!(write_state_file(false), "0");
    for b in [true, false] {
        assert_eq!(read_state_file(Some(write_state_file(b))), b);
    }
    assert!(!read_state_file(None));
    assert!(!read_state_file(Some("1\n")));
    assert!(!read_state_file(Some("")));
}

#[test]
fn webview_versions() {
    assert!(webview_version_check("109.0.1518.140"));
    assert!(webview_version_check("110.0.0.0"));
    assert!(webview_version_check("120.1"));
    assert!(webview_version_check("109.0.1519.140"));
    assert!(!webview_version_check("109.0.1519.1"));
    assert!(!webview_version_check("108.9.9999.999"));
    assert!(!webview_version_check("109.0.1518.139"));
    assert!(webview_version_check("109"));
    assert!(webview_version_check("109.0.1518.140.0.1"));
    assert!(!webview_version_check("-5"));
    assert_eq!(parse_version("1.+2.-3"), Some(vec![1, 2, -3]));
    assert_eq!(parse_version("1..2"), None);
    assert_eq!(parse_version("1.x"), None);
}

#[test]
fn webview_installed_from_query() {
    assert!(get_webview_installed(&Ok(Some("130.0.2849.80".to_string()))));
    assert!(!get_webview_installed(&Ok(Some("100.0.0.0".to_string()))));
    assert!(!get_webview_installed(&Ok(None)));
    assert!(!get_webview_installed(&Err("reg failed".to_string())));
}

#[test]
fn reg_query_output() {
    let out = "\r\nHKEY_LOCAL_MACHINE\\SOFTWARE\\WOW6432Node\\Microsoft\\EdgeUpdate\\Clients\\{F3017226-FE2A-4295-8BDF-00C3A9A7E4C5}\r\n    pv    REG_SZ    130.0.2849.80\r\n\r\n";
    assert_eq!(parse_reg_query_output(out, "pv"), Ok(Some("130.0.2849.80".to_string())));
    assert_eq!(parse_reg_query_output(out, "name"), Ok(None));
    assert_eq!(
        parse_reg_query_output("    pv    REG_SZ\n", "pv"),
        Err("Unexpected format in output.".to_string())
    );
    assert_eq!(parse_reg_query_output("", "pv"), Ok(None));
    assert_eq!(parse_reg_query_output("a b c\npv x y z\n", "pv"), Ok(Some("y".to_string())));
}
