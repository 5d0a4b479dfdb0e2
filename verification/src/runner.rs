use vstd::prelude::*;
use vstd::string::*;
use crate::text::same_text;

verus! {

/// What launching an app under Wine waits for next.
#[derive(Clone, Copy, PartialEq, Eq, Structural)]
pub enum LaunchPhase {
    /// Wine's prefix to be initialized.
    InitWine,
    /// The studio's display setting to be written to the registry.
    SetDpi,
    /// Whether DXVK is recorded as installed.
    ReadDxvkState,
    /// The latest DXVK release.
    FetchDxvk,
    /// DXVK to be installed.
    InstallDxvk,
    /// DXVK to be recorded as installed.
    MarkDxvk,
    /// The `WINEDEBUG` setting.
    ReadWineDebug,
    /// Nothing: the launch has ended.
    Done,
}

/// The state of a launch: its phase, and whether the app is the studio.
#[derive(Clone, Copy, PartialEq, Eq, Structural)]
pub struct LaunchState {
    pub phase: LaunchPhase,
    pub studio: bool,
}

/// What came of the last thing that the launch asked for.
pub enum LaunchEvent {
    WineInitialized(Result<(), String>),
    DpiSet(Result<(), String>),
    DxvkState(bool),
    LatestDxvk(Result<String, String>),
    DxvkInstalled(Result<(), String>),
    DxvkMarked,
    WineDebug(Option<String>),
}

/// What the launch asks for next.
pub enum LaunchAction {
    /// Initialize Wine's prefix.
    InitWine,
    /// Write a value to the registry of the prefix.
    SetRegistry { key: String, name: String, kind: String, value: String },
    /// Read whether DXVK is recorded as installed.
    ReadDxvkState,
    /// Fetch the latest DXVK release.
    FetchLatestDxvk,
    /// Install this DXVK release.
    InstallDxvk(String),
    /// Record DXVK as installed.
    MarkDxvkInstalled,
    /// Read the `WINEDEBUG` setting.
    ReadWineDebug,
    /// Start the app with this `WINEDEBUG` setting.
    Spawn(String),
    /// Give up with this error.
    Fail(String),
}

/// One step of a launch: the new state, a warning to show, and what to do.
pub struct LaunchStep {
    pub state: LaunchState,
    pub warning: Option<String>,
    pub action: LaunchAction,
}

pub open spec fn wine_init_failure(e: Seq<char>) -> Seq<char> {
    "Error initializing wine: "@ + e
}

pub open spec fn dpi_warning(e: Seq<char>) -> Seq<char> {
    "Failed to set DPI for Studio prefix, this may result in Studio crashing after the splash screen closes. Error info: "@
        + e
}

pub open spec fn dxvk_fetch_warning(e: Seq<char>) -> Seq<char> {
    "Error fetching latest dxvk: "@ + e
}

pub open spec fn dxvk_install_warning(e: Seq<char>) -> Seq<char> {
    "Error installing dxvk: "@ + e
}

/// How far a launch has come: every step moves it further, so that a launch
/// ends after at most seven steps.
pub open spec fn launch_rank(phase: LaunchPhase) -> int {
    match phase {
        LaunchPhase::InitWine => 0,
        LaunchPhase::SetDpi => 1,
        LaunchPhase::ReadDxvkState => 2,
        LaunchPhase::FetchDxvk => 3,
        LaunchPhase::InstallDxvk => 4,
        LaunchPhase::MarkDxvk => 5,
        LaunchPhase::ReadWineDebug => 6,
        LaunchPhase::Done => 7,
    }
}

/// The event answers what the phase waits for.
pub open spec fn launch_event_fits(phase: LaunchPhase, event: LaunchEvent) -> bool {
    match phase {
        LaunchPhase::InitWine => event is WineInitialized,
        LaunchPhase::SetDpi => event is DpiSet,
        LaunchPhase::ReadDxvkState => event is DxvkState,
        LaunchPhase::FetchDxvk => event is LatestDxvk,
        LaunchPhase::InstallDxvk => event is DxvkInstalled,
        LaunchPhase::MarkDxvk => event is DxvkMarked,
        LaunchPhase::ReadWineDebug => event is WineDebug,
        LaunchPhase::Done => false,
    }
}

/// Whether the event answers what the phase waits for.
pub fn launch_event_fits_phase(phase: LaunchPhase, event: &LaunchEvent) -> (r: bool)
    ensures
        r == launch_event_fits(phase, *event),
{
    match phase {
        LaunchPhase::InitWine => matches!(event, LaunchEvent::WineInitialized(_)),
        LaunchPhase::SetDpi => matches!(event, LaunchEvent::DpiSet(_)),
        LaunchPhase::ReadDxvkState => matches!(event, LaunchEvent::DxvkState(_)),
        LaunchPhase::FetchDxvk => matches!(event, LaunchEvent::LatestDxvk(_)),
        LaunchPhase::InstallDxvk => matches!(event, LaunchEvent::DxvkInstalled(_)),
        LaunchPhase::MarkDxvk => matches!(event, LaunchEvent::DxvkMarked),
        LaunchPhase::ReadWineDebug => matches!(event, LaunchEvent::WineDebug(_)),
        LaunchPhase::Done => false,
    }
}

fn message(prefix: &str, detail: &str) -> (r: String)
    ensures
        r@ == prefix@ + detail@,
{
    let mut r = String::from_str(prefix);
    r.append(detail);
    r
}

/// How a launch starts: with initializing Wine's prefix.
pub fn launch_begin(app_name: &str) -> (r: LaunchStep)
    ensures
        r.state.phase == LaunchPhase::InitWine,
        r.state.studio == (app_name@ == "studio"@),
        r.warning is None,
        r.action is InitWine,
{
    LaunchStep {
        state: LaunchState { phase: LaunchPhase::InitWine, studio: same_text(app_name, "studio") },
        warning: None,
        action: LaunchAction::InitWine,
    }
}

/// The step of a launch that follows `event`.
pub fn launch_next(state: LaunchState, event: LaunchEvent) -> (r: LaunchStep)
    requires
        launch_event_fits(state.phase, event),
    ensures
        r.state.studio == state.studio,
        launch_rank(r.state.phase) > launch_rank(state.phase),
        (r.action is Fail || r.action is Spawn) <==> r.state.phase == LaunchPhase::Done,
        match (state.phase, event) {
            (LaunchPhase::InitWine, LaunchEvent::WineInitialized(Err(e))) => r.state.phase
                == LaunchPhase::Done && r.warning is None && (r.action matches LaunchAction::Fail(m)
                && m@ == wine_init_failure(e@)),
            (LaunchPhase::InitWine, LaunchEvent::WineInitialized(Ok(()))) => r.warning is None && if state.studio {
                r.state.phase == LaunchPhase::SetDpi && (r.action matches LaunchAction::SetRegistry {
                    key,
                    name,
                    kind,
                    value,
                } && key@ == "HKEY_CURRENT_USER\\Control Panel\\Desktop"@ && name@ == "LogPixels"@
                    && kind@ == "REG_DWORD"@ && value@ == "97"@)
            } else {
                r.state.phase == LaunchPhase::ReadDxvkState && r.action is ReadDxvkState
            },
            (LaunchPhase::SetDpi, LaunchEvent::DpiSet(res)) => r.state.phase
                == LaunchPhase::ReadDxvkState && r.action is ReadDxvkState && match res {
                Ok(()) => r.warning is None,
                Err(e) => r.warning matches Some(w) && w@ == dpi_warning(e@),
            },
            (LaunchPhase::ReadDxvkState, LaunchEvent::DxvkState(installed)) => r.warning is None
                && if installed {
                r.state.phase == LaunchPhase::ReadWineDebug && r.action is ReadWineDebug
            } else {
                r.state.phase == LaunchPhase::FetchDxvk && r.action is FetchLatestDxvk
            },
            (LaunchPhase::FetchDxvk, LaunchEvent::LatestDxvk(Ok(v))) => r.warning is None
                && r.state.phase == LaunchPhase::InstallDxvk && (r.action matches LaunchAction::InstallDxvk(
                w,
            ) && w@ == v@),
            (LaunchPhase::FetchDxvk, LaunchEvent::LatestDxvk(Err(e))) => r.state.phase
                == LaunchPhase::ReadWineDebug && r.action is ReadWineDebug && (r.warning matches Some(
                w,
            ) && w@ == dxvk_fetch_warning(e@)),
            (LaunchPhase::InstallDxvk, LaunchEvent::DxvkInstalled(Ok(()))) => r.warning is None
                && r.state.phase == LaunchPhase::MarkDxvk && r.action is MarkDxvkInstalled,
            (LaunchPhase::InstallDxvk, LaunchEvent::DxvkInstalled(Err(e))) => r.state.phase
                == LaunchPhase::ReadWineDebug && r.action is ReadWineDebug && (r.warning matches Some(
                w,
            ) && w@ == dxvk_install_warning(e@)),
            (LaunchPhase::MarkDxvk, LaunchEvent::DxvkMarked) => r.warning is None && r.state.phase
                == LaunchPhase::ReadWineDebug && r.action is ReadWineDebug,
            (LaunchPhase::ReadWineDebug, LaunchEvent::WineDebug(setting)) => r.warning is None
                && r.state.phase == LaunchPhase::Done && (r.action matches LaunchAction::Spawn(d)
                && d@ == match setting {
                Some(s) => s@,
                None => "-all"@,
            }),
            _ => false,
        },
{
    let studio = state.studio;
    match (state.phase, event) {
        (LaunchPhase::InitWine, LaunchEvent::WineInitialized(Err(e))) => LaunchStep {
            state: LaunchState { phase: LaunchPhase::Done, studio },
            warning: None,
            action: LaunchAction::Fail(message("Error initializing wine: ", e.as_str())),
        },
        (LaunchPhase::InitWine, LaunchEvent::WineInitialized(Ok(()))) => {
            if studio {
                // The studio fails at 96 DPI; 97 keeps it from crashing.
                LaunchStep {
                    state: LaunchState { phase: LaunchPhase::SetDpi, studio },
                    warning: None,
                    action: LaunchAction::SetRegistry {
                        key: String::from_str("HKEY_CURRENT_USER\\Control Panel\\Desktop"),
                        name: String::from_str("LogPixels"),
                        kind: String::from_str("REG_DWORD"),
                        value: String::from_str("97"),
                    },
                }
            } else {
                LaunchStep {
                    state: LaunchState { phase: LaunchPhase::ReadDxvkState, studio },
                    warning: None,
                    action: LaunchAction::ReadDxvkState,
                }
            }
        },
        (LaunchPhase::SetDpi, LaunchEvent::DpiSet(res)) => LaunchStep {
            state: LaunchState { phase: LaunchPhase::ReadDxvkState, studio },
            warning: match res {
                Ok(()) => None,
                Err(e) => Some(
                    message(
                        "Failed to set DPI for Studio prefix, this may result in Studio crashing after the splash screen closes. Error info: ",
                        e.as_str(),
                    ),
                ),
            },
            action: LaunchAction::ReadDxvkState,
        },
        (LaunchPhase::ReadDxvkState, LaunchEvent::DxvkState(installed)) => {
            if installed {
                LaunchStep {
                    state: LaunchState { phase: LaunchPhase::ReadWineDebug, studio },
                    warning: None,
                    action: LaunchAction::ReadWineDebug,
                }
            } else {
                LaunchStep {
                    state: LaunchState { phase: LaunchPhase::FetchDxvk, studio },
                    warning: None,
                    action: LaunchAction::FetchLatestDxvk,
                }
            }
        },
        (LaunchPhase::FetchDxvk, LaunchEvent::LatestDxvk(Ok(v))) => LaunchStep {
            state: LaunchState { phase: LaunchPhase::InstallDxvk, studio },
            warning: None,
            action: LaunchAction::InstallDxvk(v),
        },
        (LaunchPhase::FetchDxvk, LaunchEvent::LatestDxvk(Err(e))) => LaunchStep {
            state: LaunchState { phase: LaunchPhase::ReadWineDebug, studio },
            warning: Some(message("Error fetching latest dxvk: ", e.as_str())),
            action: LaunchAction::ReadWineDebug,
        },
        (LaunchPhase::InstallDxvk, LaunchEvent::DxvkInstalled(Ok(()))) => LaunchStep {
            state: LaunchState { phase: LaunchPhase::MarkDxvk, studio },
            warning: None,
            action: LaunchAction::MarkDxvkInstalled,
        },
        (LaunchPhase::InstallDxvk, LaunchEvent::DxvkInstalled(Err(e))) => LaunchStep {
            state: LaunchState { phase: LaunchPhase::ReadWineDebug, studio },
            warning: Some(message("Error installing dxvk: ", e.as_str())),
            action: LaunchAction::ReadWineDebug,
        },
        (LaunchPhase::MarkDxvk, LaunchEvent::DxvkMarked) => LaunchStep {
            state: LaunchState { phase: LaunchPhase::ReadWineDebug, studio },
            warning: None,
            action: LaunchAction::ReadWineDebug,
        },
        (LaunchPhase::ReadWineDebug, LaunchEvent::WineDebug(setting)) => LaunchStep {
            state: LaunchState { phase: LaunchPhase::Done, studio },
            warning: None,
            action: LaunchAction::Spawn(
                match setting {
                    Some(s) => s,
                    None => String::from_str("-all"),
                },
            ),
        },
        _ => {
            proof {
                assert(false);
            }
            LaunchStep { state, warning: None, action: LaunchAction::ReadWineDebug }
        },
    }
}

/// What installing WebView2 into a deployment waits for next.
#[derive(Clone, Copy, PartialEq, Eq, Structural)]
pub enum WebviewPhase {
    /// Whether WebView2 is already installed.
    CheckInstalled,
    /// The prefix's Windows version to be set.
    SetWindowsVersion,
    /// The installer to start.
    RunInstaller,
    /// The installation to be recorded.
    MarkInstalled,
    /// The installer to exit.
    WaitInstaller,
    /// The prefix's processes to be killed.
    KillWine,
    /// Nothing: the installation has ended.
    Done,
}

/// What came of the last thing that the installation asked for.
pub enum WebviewEvent {
    /// Whether WebView2 is installed.
    Installed(bool),
    WindowsVersionSet,
    /// The installer started, or why it could not.
    InstallerStarted(Result<(), String>),
    Marked,
    /// The installer exited with this status (whether it succeeded, and how
    /// the status reads), or why waiting for it failed.
    InstallerExited(Result<(bool, String), String>),
    /// Killing the prefix's processes ended, or why it failed.
    WineKilled(Result<(), String>),
}

/// What the installation asks for next.
pub enum WebviewAction {
    CheckInstalled,
    SetWindowsVersion(String),
    RunInstaller,
    MarkInstalled,
    WaitInstaller,
    KillWine,
    /// The installation has ended so.
    Finish(Result<(), String>),
}

/// The state of an installation: its phase, and how it ends once the prefix
/// has been killed.
pub struct WebviewState {
    pub phase: WebviewPhase,
    pub outcome: Result<(), String>,
}

/// One step of an installation: the new state, a warning, and what to do.
pub struct WebviewStep {
    pub state: WebviewState,
    pub warning: Option<String>,
    pub action: WebviewAction,
}

pub open spec fn run_failure(e: Seq<char>) -> Seq<char> {
    "Failed to run webview installer: "@ + e
}

pub open spec fn exit_failure(status: Seq<char>) -> Seq<char> {
    "Webview installer exited with non-zero exit status: "@ + status
}

pub open spec fn wait_failure(e: Seq<char>) -> Seq<char> {
    "Failed to install webview: "@ + e
}

pub open spec fn kill_warning(e: Seq<char>) -> Seq<char> {
    "Failed to kill wine: "@ + e
}

/// How an installation ends, from how the installer exited.
pub open spec fn installer_outcome(exit: Result<(bool, String), String>) -> Result<Seq<char>, Seq<char>> {
    match exit {
        Ok((true, _)) => Ok(Seq::empty()),
        Ok((false, status)) => Err(exit_failure(status@)),
        Err(e) => Err(wait_failure(e@)),
    }
}

/// The view of an outcome: its error text, if any.
pub open spec fn outcome_view(o: Result<(), String>) -> Result<Seq<char>, Seq<char>> {
    match o {
        Ok(()) => Ok(Seq::empty()),
        Err(e) => Err(e@),
    }
}

/// How far an installation has come: every step moves it further, so that an
/// installation ends after at most six steps.
pub open spec fn webview_rank(phase: WebviewPhase) -> int {
    match phase {
        WebviewPhase::CheckInstalled => 0,
        WebviewPhase::SetWindowsVersion => 1,
        WebviewPhase::RunInstaller => 2,
        WebviewPhase::MarkInstalled => 3,
        WebviewPhase::WaitInstaller => 4,
        WebviewPhase::KillWine => 5,
        WebviewPhase::Done => 6,
    }
}

/// The event answers what the phase waits for.
pub open spec fn webview_event_fits(phase: WebviewPhase, event: WebviewEvent) -> bool {
    match phase {
        WebviewPhase::CheckInstalled => event is Installed,
        WebviewPhase::SetWindowsVersion => event is WindowsVersionSet,
        WebviewPhase::RunInstaller => event is InstallerStarted,
        WebviewPhase::MarkInstalled => event is Marked,
        WebviewPhase::WaitInstaller => event is InstallerExited,
        WebviewPhase::KillWine => event is WineKilled,
        WebviewPhase::Done => false,
    }
}

/// Whether the event answers what the phase waits for.
pub fn webview_event_fits_phase(phase: WebviewPhase, event: &WebviewEvent) -> (r: bool)
    ensures
        r == webview_event_fits(phase, *event),
{
    match phase {
        WebviewPhase::CheckInstalled => matches!(event, WebviewEvent::Installed(_)),
        WebviewPhase::SetWindowsVersion => matches!(event, WebviewEvent::WindowsVersionSet),
        WebviewPhase::RunInstaller => matches!(event, WebviewEvent::InstallerStarted(_)),
        WebviewPhase::MarkInstalled => matches!(event, WebviewEvent::Marked),
        WebviewPhase::WaitInstaller => matches!(event, WebviewEvent::InstallerExited(_)),
        WebviewPhase::KillWine => matches!(event, WebviewEvent::WineKilled(_)),
        WebviewPhase::Done => false,
    }
}

/// How installing WebView2 starts: by checking whether it is installed.
pub fn install_webview2_begin() -> (r: WebviewStep)
    ensures
        r.state.phase == WebviewPhase::CheckInstalled,
        r.state.outcome is Ok,
        r.warning is None,
        r.action is CheckInstalled,
{
    WebviewStep {
        state: WebviewState { phase: WebviewPhase::CheckInstalled, outcome: Ok(()) },
        warning: None,
        action: WebviewAction::CheckInstalled,
    }
}

/// The step of installing WebView2 that follows `event`.
pub fn install_webview2_next(state: WebviewState, event: WebviewEvent) -> (r: WebviewStep)
    requires
        webview_event_fits(state.phase, event),
    ensures
        webview_rank(r.state.phase) > webview_rank(state.phase),
        r.action is Finish <==> r.state.phase == WebviewPhase::Done,
        match (state.phase, event) {
            (WebviewPhase::CheckInstalled, WebviewEvent::Installed(true)) => r.state.phase
                == WebviewPhase::Done && r.warning is None && (r.action matches WebviewAction::Finish(o)
                && o is Ok),
            (WebviewPhase::CheckInstalled, WebviewEvent::Installed(false)) => r.state.phase
                == WebviewPhase::SetWindowsVersion && r.warning is None && (r.action matches WebviewAction::SetWindowsVersion(
                v,
            ) && v@ == "win7"@),
            (WebviewPhase::SetWindowsVersion, WebviewEvent::WindowsVersionSet) => r.state.phase
                == WebviewPhase::RunInstaller && r.warning is None && r.action is RunInstaller,
            (WebviewPhase::RunInstaller, WebviewEvent::InstallerStarted(Err(e))) => r.state.phase
                == WebviewPhase::Done && r.warning is None && (r.action matches WebviewAction::Finish(o)
                && outcome_view(o) == Err::<Seq<char>, Seq<char>>(run_failure(e@))),
            (WebviewPhase::RunInstaller, WebviewEvent::InstallerStarted(Ok(()))) => r.state.phase
                == WebviewPhase::MarkInstalled && r.warning is None && r.action is MarkInstalled,
            (WebviewPhase::MarkInstalled, WebviewEvent::Marked) => r.state.phase
                == WebviewPhase::WaitInstaller && r.warning is None && r.action is WaitInstaller,
            (WebviewPhase::WaitInstaller, WebviewEvent::InstallerExited(exit)) => r.state.phase
                == WebviewPhase::KillWine && r.warning is None && r.action is KillWine
                && outcome_view(r.state.outcome) == installer_outcome(exit),
            (WebviewPhase::KillWine, WebviewEvent::WineKilled(res)) => r.state.phase
                == WebviewPhase::Done && (r.action matches WebviewAction::Finish(o) && outcome_view(o)
                == outcome_view(state.outcome)) && match res {
                Ok(()) => r.warning is None,
                Err(e) => r.warning matches Some(w) && w@ == kill_warning(e@),
            },
            _ => false,
        },
{
    match (state.phase, event) {
        (WebviewPhase::CheckInstalled, WebviewEvent::Installed(true)) => WebviewStep {
            state: WebviewState { phase: WebviewPhase::Done, outcome: Ok(()) },
            warning: None,
            action: WebviewAction::Finish(Ok(())),
        },
        (WebviewPhase::CheckInstalled, WebviewEvent::Installed(false)) => WebviewStep {
            state: WebviewState { phase: WebviewPhase::SetWindowsVersion, outcome: Ok(()) },
            warning: None,
            action: WebviewAction::SetWindowsVersion(String::from_str("win7")),
        },
        (WebviewPhase::SetWindowsVersion, WebviewEvent::WindowsVersionSet) => WebviewStep {
            state: WebviewState { phase: WebviewPhase::RunInstaller, outcome: Ok(()) },
            warning: None,
            action: WebviewAction::RunInstaller,
        },
        (WebviewPhase::RunInstaller, WebviewEvent::InstallerStarted(Err(e))) => WebviewStep {
            state: WebviewState { phase: WebviewPhase::Done, outcome: Ok(()) },
            warning: None,
            action: WebviewAction::Finish(Err(message("Failed to run webview installer: ", e.as_str()))),
        },
        (WebviewPhase::RunInstaller, WebviewEvent::InstallerStarted(Ok(()))) => WebviewStep {
            state: WebviewState { phase: WebviewPhase::MarkInstalled, outcome: Ok(()) },
            warning: None,
            action: WebviewAction::MarkInstalled,
        },
        (WebviewPhase::MarkInstalled, WebviewEvent::Marked) => WebviewStep {
            state: WebviewState { phase: WebviewPhase::WaitInstaller, outcome: Ok(()) },
            warning: None,
            action: WebviewAction::WaitInstaller,
        },
        (WebviewPhase::WaitInstaller, WebviewEvent::InstallerExited(exit)) => {
            let outcome = match exit {
                Ok((true, _)) => Ok(()),
                Ok((false, status)) => Err(
                    message("Webview installer exited with non-zero exit status: ", status.as_str()),
                ),
                Err(e) => Err(message("Failed to install webview: ", e.as_str())),
            };
            WebviewStep {
                state: WebviewState { phase: WebviewPhase::KillWine, outcome },
                warning: None,
                action: WebviewAction::KillWine,
            }
        },
        (WebviewPhase::KillWine, WebviewEvent::WineKilled(res)) => {
            let warning = match res {
                Ok(()) => None,
                Err(e) => Some(message("Failed to kill wine: ", e.as_str())),
            };
            let finish = match &state.outcome {
                Ok(()) => Ok(()),
                Err(e) => Err(e.clone()),
            };
            WebviewStep {
                state: WebviewState { phase: WebviewPhase::Done, outcome: state.outcome },
                warning,
                action: WebviewAction::Finish(finish),
            }
        },
        _ => {
            proof {
                assert(false);
            }
            WebviewStep { state, warning: None, action: WebviewAction::KillWine }
        },
    }
}

} // verus!
