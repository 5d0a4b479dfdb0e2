use rumester::client_settings::ClientDeployment;

fn deployment() -> ClientDeployment {
    ClientDeployment { version: "0.1".to_string(), client_version_upload: "version-abc".to_string() }
}

#[test]
fn deployment_paths() {
    let d = deployment();
    assert_eq!(d.get_install_dir("/r"), "/r/deployments/version-abc");
    assert_eq!(
        d.get_webview_installer_dir("/r"),
        "/r/deployments/version-abc/WebView2RuntimeInstaller/MicrosoftEdgeWebview2Setup.exe"
    );
    assert_eq!(d.get_webview_state_dir("/r"), "/r/deployments/version-abc/rumester_webview_state");
    assert_eq!(d.get_app_settings_path("/r"), "/r/deployments/version-abc/AppSettings.xml");
}

#[test]
fn installed_when_directory_exists() {
    let here = ClientDeployment { version: "0.1".to_string(), client_version_upload: "/".to_string() };
    assert!(here.is_installed("/r"));
    let missing = ClientDeployment {
        version: "0.1".to_string(),
        client_version_upload: "version-that-is-not-installed".to_string(),
    };
    assert!(!missing.is_installed("/nonexistent-rumester-root"));
}
