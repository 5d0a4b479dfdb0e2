# rumester

A launcher that runs Roblox under Wine: it finds the latest deployment,
downloads and unpacks its packages from a mirror, installs WebView2 and DXVK
into a Wine prefix, starts the app and follows its log files.

`src/` is the verified library (Verus): the data directory layout, the
package manifest reader, the registry answer and version checks, the byte
count display, the list of files a package installs, and the decisions of
launching, of installing WebView2, of choosing a mirror and of following the
logs, as step functions from state and event to the next action.

`app/` is the command line program around it: the network, the file system,
Wine and the registry, which it drives with the library's step functions.
