use vstd::prelude::*;
use vstd::string::*;
use crate::paths::{join, path_join};

verus! {

/// A deployment of a Roblox app, as the client settings service names it.
#[derive(Clone)]
pub struct ClientDeployment {
    pub version: String,
    pub client_version_upload: String,
}

/// Where a deployment is installed, inside the data directory.
pub open spec fn install_dir_of(appdata: Seq<char>, upload: Seq<char>) -> Seq<char> {
    path_join(path_join(appdata, "deployments"@), upload)
}

/// Whether `p` names an existing file or directory.  Nothing is stated of the
/// answer: it depends on what is on disk.
#[verifier::external_body]
fn path_exists(p: &str) -> bool {
    std::path::Path::new(p).exists()
}

impl ClientDeployment {
    /// The directory that this deployment is installed in.
    pub fn get_install_dir(&self, appdata_dir: &str) -> (r: String)
        ensures
            r@ == install_dir_of(appdata_dir@, self.client_version_upload@),
    {
        let deployments = crate::app_data::get_deployments_dir(appdata_dir);
        join(deployments.as_str(), self.client_version_upload.as_str())
    }

    /// The WebView2 installer that comes with this deployment.
    pub fn get_webview_installer_dir(&self, appdata_dir: &str) -> (r: String)
        ensures
            r@ == path_join(
                install_dir_of(appdata_dir@, self.client_version_upload@),
                "WebView2RuntimeInstaller/MicrosoftEdgeWebview2Setup.exe"@,
            ),
    {
        let dir = self.get_install_dir(appdata_dir);
        join(dir.as_str(), "WebView2RuntimeInstaller/MicrosoftEdgeWebview2Setup.exe")
    }

    /// The file that records whether WebView2 was installed for this deployment.
    pub fn get_webview_state_dir(&self, appdata_dir: &str) -> (r: String)
        ensures
            r@ == path_join(
                install_dir_of(appdata_dir@, self.client_version_upload@),
                "rumester_webview_state"@,
            ),
    {
        let dir = self.get_install_dir(appdata_dir);
        join(dir.as_str(), "rumester_webview_state")
    }

    /// The settings file that the launcher writes into this deployment.
    pub fn get_app_settings_path(&self, appdata_dir: &str) -> (r: String)
        ensures
            r@ == path_join(
                install_dir_of(appdata_dir@, self.client_version_upload@),
                "AppSettings.xml"@,
            ),
    {
        let dir = self.get_install_dir(appdata_dir);
        join(dir.as_str(), "AppSettings.xml")
    }

    /// Whether this deployment's install directory exists.
    pub fn is_installed(&self, appdata_dir: &str) -> bool {
        let dir = self.get_install_dir(appdata_dir);
        path_exists(dir.as_str())
    }
}

/// The address that is asked for the latest deployment of a binary type.
pub open spec fn client_version_url_of(binary_type: Seq<char>) -> Seq<char> {
    "https://clientsettings.roblox.com/v2/client-version/"@ + binary_type
}

/// The address that is asked for the latest deployment of a binary type.  A
/// channel is not part of it: the request goes to the default channel.
pub fn client_version_url(binary_type: &str) -> (r: String)
    ensures
        r@ == client_version_url_of(binary_type@),
{
    let mut r = String::from_str("https://clientsettings.roblox.com/v2/client-version/");
    r.append(binary_type);
    r
}

} // verus!
