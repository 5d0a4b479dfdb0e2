use rumester::client_settings::{client_version_url, ClientDeployment};
use rumester::mirror::{
    get_mirror_next, get_mirror_start, manifest_header_valid, manifest_url,
    parse_rbx_pkg_manifest, try_parse_rbx_pkg_manifest, MirrorStep,
};

#[test]
fn manifest_lists_packages() {
    let m = "v0\r\nRobloxApp.zip\r\nabc123\r\n1000\r\n400\r\ncontent-fonts.zip\r\ndef456\r\n-2\r\n+3\r\n";
    let ps = parse_rbx_pkg_manifest(m);
    assert_eq!(ps.len(), 2);
    assert_eq!(ps[0].name, "RobloxApp.zip");
    assert_eq!(ps[0].checksum, "abc123");
    assert_eq!(ps[0].size, 1000);
    assert_eq!(ps[0].zipsize, 400);
    assert_eq!(ps[1].name, "content-fonts.zip");
    assert_eq!(ps[1].checksum, "def456");
    assert_eq!(ps[1].size, -2);
    assert_eq!(ps[1].zipsize, 3);
    assert!(manifest_header_valid(m));
}

#[test]
fn manifest_without_final_line_break() {
    let m = "v0\r\na\r\nb\r\n1\r\n2";
    let ps = parse_rbx_pkg_manifest(m);
    assert_eq!(ps.len(), 1);
    assert_eq!(ps[0].zipsize, 2);
}

#[test]
fn manifest_edge_cases() {
    assert_eq!(try_parse_rbx_pkg_manifest("v0").map(|p| p.len()), Some(0));
    assert_eq!(try_parse_rbx_pkg_manifest("v0\r\n").map(|p| p.len()), Some(0));
    assert_eq!(try_parse_rbx_pkg_manifest("").map(|p| p.len()), Some(0));
    assert!(try_parse_rbx_pkg_manifest("v0\r\na\r\n").is_none());
    assert!(try_parse_rbx_pkg_manifest("v0\r\na\r\nb\r\n1\r\n").is_none());
    assert!(try_parse_rbx_pkg_manifest("v0\r\na\r\nb\r\nx\r\n2\r\n").is_none());
    assert!(try_parse_rbx_pkg_manifest("v0\r\na\r\nb\r\n1\r\n99999999999999999999\r\n").is_none());
    assert!(!manifest_header_valid("v1\r\n"));
    assert!(!manifest_header_valid(""));
    assert!(manifest_header_valid("v0"));
}

fn deployment() -> ClientDeployment {
    ClientDeployment { version: "0.1".to_string(), client_version_upload: "version-abc".to_string() }
}

#[test]
fn addresses() {
    assert_eq!(
        manifest_url("https://setup.rbxcdn.com", &deployment()),
        "https://setup.rbxcdn.com/version-abc-rbxPkgManifest.txt"
    );
    assert_eq!(
        client_version_url("WindowsPlayer"),
        "https://clientsettings.roblox.com/v2/client-version/WindowsPlayer"
    );
}

fn search(answers: [bool; 3]) -> Result<String, String> {
    let mut step = get_mirror_start();
    loop {
        match step {
            MirrorStep::Probe(i, _) => step = get_mirror_next(i, answers[i]),
            MirrorStep::Found(_, m) => return Ok(m),
            MirrorStep::Failed(e) => return Err(e),
        }
    }
}

#[test]
fn mirror_search_takes_first_answer() {
    assert_eq!(search([true, true, true]), Ok("https://setup.rbxcdn.com".to_string()));
    assert_eq!(search([false, true, true]), Ok("https://roblox-setup.cachefly.net".to_string()));
    assert_eq!(
        search([false, false, true]),
        Ok("https://s3.amazonaws.com/setup.roblox.com".to_string())
    );
    assert_eq!(search([false, false, false]), Err("Couldn't find a valid mirror".to_string()));
}
