use rumester::flog::{flog_after, flog_begin, flog_on_event, get_log_dir, FlogAction, FlogEvent};
use rumester::runner::{
    install_webview2_begin, install_webview2_next, launch_begin, launch_next, LaunchAction,
    LaunchEvent, LaunchPhase, WebviewAction, WebviewEvent, WebviewPhase,
};

#[test]
fn player_launch_with_dxvk_installed() {
    let s = launch_begin("player");
    assert!(matches!(s.action, LaunchAction::InitWine));
    let s = launch_next(s.state, LaunchEvent::WineInitialized(Ok(())));
    assert!(matches!(s.action, LaunchAction::ReadDxvkState));
    let s = launch_next(s.state, LaunchEvent::DxvkState(true));
    assert!(matches!(s.action, LaunchAction::ReadWineDebug));
    let s = launch_next(s.state, LaunchEvent::WineDebug(None));
    assert!(s.state.phase == LaunchPhase::Done);
    match s.action {
        LaunchAction::Spawn(d) => assert_eq!(d, "-all"),
        _ => panic!("expected a spawn"),
    }
}

#[test]
fn studio_launch_installs_dxvk() {
    let s = launch_begin("studio");
    let s = launch_next(s.state, LaunchEvent::WineInitialized(Ok(())));
    match &s.action {
        LaunchAction::SetRegistry { key, name, kind, value } => {
            assert_eq!(key, "HKEY_CURRENT_USER\\Control Panel\\Desktop");
            assert_eq!(name, "LogPixels");
            assert_eq!(kind, "REG_DWORD");
            assert_eq!(value, "97");
        }
        _ => panic!("expected the DPI fix"),
    }
    let s = launch_next(s.state, LaunchEvent::DpiSet(Err("denied".to_string())));
    assert_eq!(
        s.warning.as_deref(),
        Some("Failed to set DPI for Studio prefix, this may result in Studio crashing after the splash screen closes. Error info: denied")
    );
    let s = launch_next(s.state, LaunchEvent::DxvkState(false));
    assert!(matches!(s.action, LaunchAction::FetchLatestDxvk));
    let s = launch_next(s.state, LaunchEvent::LatestDxvk(Ok("2.4".to_string())));
    match &s.action {
        LaunchAction::InstallDxvk(v) => assert_eq!(v, "2.4"),
        _ => panic!("expected an install"),
    }
    let s = launch_next(s.state, LaunchEvent::DxvkInstalled(Ok(())));
    assert!(matches!(s.action, LaunchAction::MarkDxvkInstalled));
    let s = launch_next(s.state, LaunchEvent::DxvkMarked);
    let s = launch_next(s.state, LaunchEvent::WineDebug(Some("+relay".to_string())));
    match s.action {
        LaunchAction::Spawn(d) => assert_eq!(d, "+relay"),
        _ => panic!("expected a spawn"),
    }
}

#[test]
fn launch_failures_and_warnings() {
    let s = launch_begin("player");
    let f = launch_next(s.state, LaunchEvent::WineInitialized(Err("no wine".to_string())));
    match f.action {
        LaunchAction::Fail(e) => assert_eq!(e, "Error initializing wine: no wine"),
        _ => panic!("expected a failure"),
    }
    let s = launch_begin("player");
    let s = launch_next(s.state, LaunchEvent::WineInitialized(Ok(())));
    let s = launch_next(s.state, LaunchEvent::DxvkState(false));
    let a = launch_next(s.state, LaunchEvent::LatestDxvk(Err("offline".to_string())));
    assert_eq!(a.warning.as_deref(), Some("Error fetching latest dxvk: offline"));
    assert!(matches!(a.action, LaunchAction::ReadWineDebug));
    let s = launch_begin("player");
    let s = launch_next(s.state, LaunchEvent::WineInitialized(Ok(())));
    let s = launch_next(s.state, LaunchEvent::DxvkState(false));
    let s = launch_next(s.state, LaunchEvent::LatestDxvk(Ok("2.4".to_string())));
    let b = launch_next(s.state, LaunchEvent::DxvkInstalled(Err("disk full".to_string())));
    assert_eq!(b.warning.as_deref(), Some("Error installing dxvk: disk full"));
    assert!(matches!(b.action, LaunchAction::ReadWineDebug));
}

#[test]
fn webview_already_installed() {
    let s = install_webview2_begin();
    let s = install_webview2_next(s.state, WebviewEvent::Installed(true));
    assert!(matches!(s.action, WebviewAction::Finish(Ok(()))));
}

#[test]
fn webview_installation_runs() {
    let s = install_webview2_begin();
    let s = install_webview2_next(s.state, WebviewEvent::Installed(false));
    match &s.action {
        WebviewAction::SetWindowsVersion(v) => assert_eq!(v, "win7"),
        _ => panic!("expected the Windows version"),
    }
    let s = install_webview2_next(s.state, WebviewEvent::WindowsVersionSet);
    assert!(matches!(s.action, WebviewAction::RunInstaller));
    let s = install_webview2_next(s.state, WebviewEvent::InstallerStarted(Ok(())));
    assert!(matches!(s.action, WebviewAction::MarkInstalled));
    let s = install_webview2_next(s.state, WebviewEvent::Marked);
    assert!(matches!(s.action, WebviewAction::WaitInstaller));
    let s = install_webview2_next(
        s.state,
        WebviewEvent::InstallerExited(Ok((false, "exit status: 3".to_string()))),
    );
    assert!(matches!(s.action, WebviewAction::KillWine));
    let s = install_webview2_next(s.state, WebviewEvent::WineKilled(Err("gone".to_string())));
    assert_eq!(s.warning.as_deref(), Some("Failed to kill wine: gone"));
    assert!(s.state.phase == WebviewPhase::Done);
    match s.action {
        WebviewAction::Finish(Err(e)) => {
            assert_eq!(e, "Webview installer exited with non-zero exit status: exit status: 3")
        }
        _ => panic!("expected a failure"),
    }
}

#[test]
fn webview_installer_errors() {
    let s = install_webview2_begin();
    let s = install_webview2_next(s.state, WebviewEvent::Installed(false));
    let s = install_webview2_next(s.state, WebviewEvent::WindowsVersionSet);
    let f = install_webview2_next(s.state, WebviewEvent::InstallerStarted(Err("no exe".to_string())));
    match f.action {
        WebviewAction::Finish(Err(e)) => assert_eq!(e, "Failed to run webview installer: no exe"),
        _ => panic!("expected a failure"),
    }
    let s = install_webview2_begin();
    let s = install_webview2_next(s.state, WebviewEvent::Installed(false));
    let s = install_webview2_next(s.state, WebviewEvent::WindowsVersionSet);
    let s = install_webview2_next(s.state, WebviewEvent::InstallerStarted(Ok(())));
    let s = install_webview2_next(s.state, WebviewEvent::Marked);
    let s = install_webview2_next(s.state, WebviewEvent::InstallerExited(Err("lost".to_string())));
    let s = install_webview2_next(s.state, WebviewEvent::WineKilled(Ok(())));
    assert!(s.warning.is_none());
    match s.action {
        WebviewAction::Finish(Err(e)) => assert_eq!(e, "Failed to install webview: lost"),
        _ => panic!("expected a failure"),
    }
}

#[test]
fn log_watcher_follows_first_created_file() {
    assert_eq!(get_log_dir("/p/drive_c/users/u/AppData/Local"), "/p/drive_c/users/u/AppData/Local/Roblox/logs");
    let s = flog_begin();
    let a = flog_on_event(&s, FlogEvent::Modified);
    assert!(matches!(a, FlogAction::Ignore));
    let a = flog_on_event(&s, FlogEvent::Created("/logs/one.log".to_string()));
    match &a {
        FlogAction::ShowWhole(p) => assert_eq!(p, "/logs/one.log"),
        _ => panic!("expected the whole log"),
    }
    let s = flog_after(s, &a, 120);
    assert_eq!(s.pos, 120);
    let b = flog_on_event(&s, FlogEvent::Created("/logs/two.log".to_string()));
    assert!(matches!(b, FlogAction::Ignore));
    let c = flog_on_event(&s, FlogEvent::Modified);
    match &c {
        FlogAction::ShowFrom(p, pos) => {
            assert_eq!(p, "/logs/one.log");
            assert_eq!(*pos, 120);
        }
        _ => panic!("expected the new part"),
    }
    let s = flog_after(s, &c, 300);
    assert_eq!(s.pos, 300);
    assert_eq!(s.log_file.as_deref(), Some("/logs/one.log"));
    assert!(matches!(flog_on_event(&s, FlogEvent::Other), FlogAction::Ignore));
}
