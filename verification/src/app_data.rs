use vstd::prelude::*;
use vstd::string::*;
use crate::paths::{join, path_join};
use crate::text::{
    same_text, chars_of, split_bounds, line_bounds, word_bounds, contains_chars, string_of,
    Sep, split_by, lines_of, words, contains_seq, pieces_of, lemma_split_by_nonempty,
};
use crate::number::{parse_i32, parse_i32_spec};

verus! {

/// What `dirs::data_local_dir` gives, as text: the user's local data
/// directory, found from the environment and the platform's conventions, or
/// `None` where there is none or it is not valid UTF-8.  Nothing is stated of
/// it: it depends on the machine and the environment.
#[verifier::external_body]
fn data_local_dir() -> Option<String> {
    match dirs::data_local_dir() {
        Some(p) => match p.to_str() {
            Some(s) => Some(s.to_string()),
            None => None,
        },
        None => None,
    }
}

/// The launcher's data directory inside a local data directory.
pub fn appdata_dir_in(data_local_dir: &str) -> (r: String)
    ensures
        r@ == path_join(data_local_dir@, "rumester"@),
{
    join(data_local_dir, "rumester")
}

/// The launcher's data directory: `rumester` inside the user's local data
/// directory, or `None` where the platform names none.
pub fn get_appdata_dir() -> (r: Option<String>)
    ensures
        r matches Some(p) ==> exists|base: Seq<char>| p@ == path_join(base, "rumester"@),
{
    match data_local_dir() {
        Some(base) => Some(appdata_dir_in(base.as_str())),
        None => None,
    }
}

/// The cache directory inside the data directory.
pub fn get_cache_dir(appdata_dir: &str) -> (r: String)
    ensures
        r@ == path_join(appdata_dir@, "cache"@),
{
    join(appdata_dir, "cache")
}

/// Where deployments are downloaded, inside the data directory.
pub fn get_deployments_download_dir(appdata_dir: &str) -> (r: String)
    ensures
        r@ == path_join(appdata_dir@, "downloads"@),
{
    join(appdata_dir, "downloads")
}

/// Where deployments are installed, inside the data directory.
pub fn get_deployments_dir(appdata_dir: &str) -> (r: String)
    ensures
        r@ == path_join(appdata_dir@, "deployments"@),
{
    join(appdata_dir, "deployments")
}

/// Where the Wine prefixes live, inside the data directory.
pub fn get_prefix_dir(appdata_dir: &str) -> (r: String)
    ensures
        r@ == path_join(appdata_dir@, "prefixes"@),
{
    join(appdata_dir, "prefixes")
}

/// The Wine prefix of one app.
pub fn prefix_path_for(appdata_dir: &str, app_name: &str) -> (r: String)
    ensures
        r@ == path_join(path_join(appdata_dir@, "prefixes"@), app_name@),
{
    let prefixes = get_prefix_dir(appdata_dir);
    join(prefixes.as_str(), app_name)
}

/// The Wine root as text, when one is set.
pub fn get_wineroot_string(wineroot: Option<&str>) -> (r: Option<String>)
    ensures
        r is Some <==> wineroot is Some,
        r matches Some(s) ==> s@ == wineroot->Some_0@,
{
    match wineroot {
        Some(w) => Some(String::from_str(w)),
        None => None,
    }
}

/// The app names that the launcher knows.
pub open spec fn is_known_app(app: Seq<char>) -> bool {
    app == "player"@ || app == "studio"@
}

/// The deployment channel's binary type of an app.
pub fn get_binary_type(app: &str) -> (r: &'static str)
    requires
        is_known_app(app@),
    ensures
        app@ == "player"@ ==> r@ == "WindowsPlayer"@,
        app@ == "studio"@ ==> r@ == "WindowsStudio64"@,
{
    proof {
        reveal_strlit("player");
        reveal_strlit("studio");
        assert("player"@[0] != "studio"@[0]);
    }
    if same_text(app, "player") {
        "WindowsPlayer"
    } else {
        "WindowsStudio64"
    }
}

/// The executable of an app.
pub fn get_binary_name(app: &str) -> (r: &'static str)
    requires
        is_known_app(app@),
    ensures
        app@ == "player"@ ==> r@ == "RobloxPlayerBeta.exe"@,
        app@ == "studio"@ ==> r@ == "RobloxStudioBeta.exe"@,
{
    proof {
        reveal_strlit("player");
        reveal_strlit("studio");
        assert("player"@[0] != "studio"@[0]);
    }
    if same_text(app, "player") {
        "RobloxPlayerBeta.exe"
    } else {
        "RobloxStudioBeta.exe"
    }
}

/// Whether an app name is one that the launcher knows.
pub fn is_known_app_name(app: &str) -> (r: bool)
    ensures
        r == is_known_app(app@),
{
    same_text(app, "player") || same_text(app, "studio")
}

/// Why a cleanup failed: the error of killing the prefix, explained.
pub open spec fn kill_failure(e: Seq<char>) -> Seq<char> {
    "Failed to kill prefix: "@ + e
}

/// What cleaning up an app gives, from what killing its Wine prefix gave.
pub fn cleanup_app(kill_result: Result<(), String>) -> (r: Result<(), String>)
    ensures
        kill_result is Ok ==> r is Ok,
        kill_result matches Err(e) ==> r matches Err(m) && m@ == kill_failure(e@),
{
    match kill_result {
        Ok(()) => Ok(()),
        Err(e) => {
            let mut m = String::from_str("Failed to kill prefix: ");
            m.append(e.as_str());
            Err(m)
        },
    }
}

/// The text of a state file that records `installed`.
pub open spec fn state_text(installed: bool) -> Seq<char> {
    if installed {
        seq!['1']
    } else {
        seq!['0']
    }
}

/// What a state file says, from what reading it gave: installed only when it
/// could be read and holds exactly `1`.
pub open spec fn state_read(contents: Option<Seq<char>>) -> bool {
    contents == Some(seq!['1'])
}

/// Whether a state file records an installation, from its text when it could
/// be read.
pub fn read_state_file(contents: Option<&str>) -> (r: bool)
    ensures
        r == state_read(
            match contents {
                Some(c) => Some(c@),
                None => None,
            },
        ),
{
    match contents {
        Some(c) => {
            proof {
                reveal_strlit("1");
                assert("1"@ =~= seq!['1']);
            }
            same_text(c, "1")
        },
        None => false,
    }
}

/// The text to write to a state file that records `installed`.
pub fn write_state_file(installed: bool) -> (r: &'static str)
    ensures
        r@ == state_text(installed),
{
    proof {
        reveal_strlit("1");
        reveal_strlit("0");
    }
    if installed {
        "1"
    } else {
        "0"
    }
}

/// A state file that was written reads back as what was written.
pub proof fn lemma_state_file_round_trip(installed: bool)
    ensures
        state_read(Some(state_text(installed))) == installed,
{
    assert(seq!['0'] != seq!['1']) by {
        assert(seq!['0'][0] != seq!['1'][0]);
    }
}

/// Where the DXVK state of a Wine prefix is recorded.
pub fn get_dxvk_state_dir(prefix_path: &str) -> (r: String)
    ensures
        r@ == path_join(prefix_path@, "dxvk_state"@),
{
    join(prefix_path, "dxvk_state")
}

/// The oldest WebView2 runtime version that the launcher accepts.
pub open spec fn webview_minimum() -> Seq<int> {
    seq![109, 0, 1518, 140]
}

/// The `.`-separated parts of a version, as `parse::<i32>` reads them.
pub open spec fn version_parts(version: Seq<char>) -> Seq<Option<i32>> {
    split_by(version, Sep::Dot).map_values(|p: Seq<char>| parse_i32_spec(p))
}

/// Every part of the version reads as an `i32`.
pub open spec fn version_readable(version: Seq<char>) -> bool {
    forall|i: int| 0 <= i < version_parts(version).len() ==> (#[trigger] version_parts(version)[i]) is Some
}

/// The numbers of a readable version.
pub open spec fn version_numbers(version: Seq<char>) -> Seq<int> {
    version_parts(version).map_values(|p: Option<i32>| match p {
        Some(v) => v as int,
        None => 0,
    })
}

/// The check that the launcher makes of an installed WebView2 version: its
/// first number is above the minimum's, or none of the numbers that the two
/// have in common is below the minimum's.
pub open spec fn webview_version_ok(numbers: Seq<int>) -> bool {
    let m = webview_minimum();
    ||| m[0] < numbers[0]
    ||| forall|i: int| 0 <= i < m.len() && 0 <= i < numbers.len() ==> m[i] <= numbers[i]
}

/// A version whose first number is above 109 is new enough, and one whose
/// first number is below 109 is not, whatever its other numbers.
pub proof fn lemma_webview_version_by_first_number(numbers: Seq<int>)
    requires
        numbers.len() >= 1,
    ensures
        numbers[0] > 109 ==> webview_version_ok(numbers),
        numbers[0] < 109 ==> !webview_version_ok(numbers),
{
    if numbers[0] < 109 {
        assert(!(webview_minimum()[0] <= numbers[0]));
    }
}

/// The numbers of a version, where every part reads as an `i32`.
pub fn parse_version(version: &str) -> (r: Option<Vec<i32>>)
    ensures
        r is Some <==> version_readable(version@),
        r matches Some(v) ==> v@.len() == version_parts(version@).len() && forall|i: int|
            0 <= i < v@.len() ==> Some(#[trigger] v@[i]) == version_parts(version@)[i],
{
    let chars = chars_of(version);
    let parts = split_bounds(&chars, 0, chars.len(), Sep::Dot);
    assert(chars@.subrange(0, chars.len() as int) =~= version@);
    let ghost pieces = pieces_of(chars@, parts@);
    let mut v: Vec<i32> = Vec::new();
    let mut j: usize = 0;
    while j < parts.len()
        invariant
            j <= parts.len(),
            chars@ == version@,
            pieces == pieces_of(chars@, parts@),
            pieces == split_by(version@, Sep::Dot),
            crate::text::bounds_within(parts@, 0, chars.len() as int),
            v@.len() == j,
            forall|i: int| 0 <= i < j ==> Some(#[trigger] v@[i]) == version_parts(version@)[i],
        decreases parts.len() - j,
    {
        let (a, b) = parts[j];
        assert(pieces[j as int] == chars@.subrange(a as int, b as int));
        match parse_i32(&chars, a, b) {
            Some(n) => v.push(n),
            None => {
                assert(version_parts(version@)[j as int] is None);
                return None;
            },
        }
        j += 1;
    }
    assert forall|i: int| 0 <= i < version_parts(version@).len() implies (#[trigger] version_parts(
        version@,
    )[i]) is Some by {
        assert(Some(v@[i]) == version_parts(version@)[i]);
    }
    Some(v)
}

/// Whether an installed WebView2 version is new enough, where every part of
/// it reads as an `i32`.
pub fn webview_version_check(version: &str) -> (r: bool)
    requires
        version_readable(version@),
    ensures
        r == webview_version_ok(version_numbers(version@)),
        version_numbers(version@)[0] > 109 ==> r,
        version_numbers(version@)[0] < 109 ==> !r,
{
    proof {
        lemma_split_by_nonempty(version@, Sep::Dot);
        lemma_webview_version_by_first_number(version_numbers(version@));
    }
    let minimum: Vec<i32> = vec![109, 0, 1518, 140];
    let v = match parse_version(version) {
        Some(v) => v,
        None => {
            return false;
        },
    };
    proof {
        lemma_split_by_nonempty(version@, Sep::Dot);
    }
    let ghost nums = version_numbers(version@);
    assert(v@.len() == nums.len());
    assert forall|i: int| 0 <= i < nums.len() implies v@[i] as int == #[trigger] nums[i] by {
        assert(Some(v@[i]) == version_parts(version@)[i]);
    }
    assert(minimum@.len() == 4);
    if minimum[0] < v[0] {
        return true;
    }
    let mut i: usize = 0;
    while i < minimum.len() && i < v.len()
        invariant
            i <= minimum.len(),
            minimum@ == seq![109i32, 0, 1518, 140],
            v@.len() == nums.len(),
            forall|k: int| 0 <= k < nums.len() ==> v@[k] as int == #[trigger] nums[k],
            forall|k: int| 0 <= k < i && k < nums.len() ==> webview_minimum()[k] <= #[trigger] nums[k],
            nums.len() >= 1,
            nums == version_numbers(version@),
            !(webview_minimum()[0] < nums[0]),
        decreases minimum.len() - i,
    {
        if minimum[i] > v[i] {
            assert(webview_minimum()[i as int] > nums[i as int]);
            assert(webview_minimum().len() == 4);
            assert(!webview_version_ok(nums)) by {
                let k = i as int;
                assert(0 <= k < webview_minimum().len() && 0 <= k < nums.len());
                assert(!(webview_minimum()[k] <= nums[k]));
            }
            return false;
        }
        i += 1;
    }
    true
}

/// Whether the WebView2 runtime is installed, from what querying its version
/// in the registry gave: a version is needed, new enough.
pub fn get_webview_installed(query: &Result<Option<String>, String>) -> (r: bool)
    requires
        query matches Ok(Some(v)) ==> version_readable(v@),
    ensures
        r == match query {
            Ok(Some(v)) => webview_version_ok(version_numbers(v@)),
            _ => false,
        },
{
    match query {
        Ok(Some(version)) => webview_version_check(version.as_str()),
        Ok(None) => false,
        Err(_) => false,
    }
}

/// Line `j` is the first line of `lines` that contains `value`.
pub open spec fn first_line_with(lines: Seq<Seq<char>>, value: Seq<char>, j: int) -> bool {
    &&& 0 <= j < lines.len()
    &&& contains_seq(lines[j], value)
    &&& forall|k: int| 0 <= k < j ==> !contains_seq(#[trigger] lines[k], value)
}

/// What the output of `reg query` says of a value: the third word of the first
/// line that names it, an error where that line has fewer than three words, or
/// nothing where no line names it.
pub fn parse_reg_query_output(output: &str, value: &str) -> (r: Result<Option<String>, String>)
    ensures
        ({
            let lines = lines_of(output@);
            match r {
                Ok(None) => forall|j: int| 0 <= j < lines.len() ==> !contains_seq(#[trigger] lines[j], value@),
                Ok(Some(t)) => exists|j: int|
                    first_line_with(lines, value@, j) && words(#[trigger] lines[j]).len() >= 3
                        && t@ == words(lines[j])[2],
                Err(e) => exists|j: int|
                    first_line_with(lines, value@, j) && words(#[trigger] lines[j]).len() < 3
                        && e@ == "Unexpected format in output."@,
            }
        }),
{
    let chars = chars_of(output);
    let target = chars_of(value);
    let lines = line_bounds(&chars, 0, chars.len());
    assert(chars@.subrange(0, chars.len() as int) =~= output@);
    let ghost ls = lines_of(output@);
    let mut j: usize = 0;
    while j < lines.len()
        invariant
            j <= lines.len(),
            chars@ == output@,
            target@ == value@,
            ls == lines_of(output@),
            pieces_of(chars@, lines@) == ls,
            crate::text::bounds_within(lines@, 0, chars.len() as int),
            forall|k: int| 0 <= k < j ==> !contains_seq(#[trigger] ls[k], value@),
        decreases lines.len() - j,
    {
        let (a, b) = lines[j];
        assert(ls[j as int] == chars@.subrange(a as int, b as int));
        if contains_chars(&chars, a, b, &target) {
            assert(first_line_with(ls, value@, j as int));
            let ws = word_bounds(&chars, a, b);
            if ws.len() >= 3 {
                let (c, d) = ws[2];
                assert(words(ls[j as int])[2] == chars@.subrange(c as int, d as int));
                return Ok(Some(string_of(&chars, c, d)));
            } else {
                return Err(String::from_str("Unexpected format in output."));
            }
        }
        j += 1;
    }
    Ok(None)
}

/// The local application data directory of a Windows user inside a Wine prefix.
pub open spec fn local_appdata_in(prefix: Seq<char>, user: Seq<char>) -> Seq<char> {
    path_join(path_join(path_join(prefix, "drive_c/users/"@), user), "AppData/Local"@)
}

/// The local application data directory of `user` inside the Wine prefix.
pub fn local_appdata_dir_for(prefix_path: &str, user: &str) -> (r: String)
    ensures
        r@ == local_appdata_in(prefix_path@, user@),
{
    let users = join(prefix_path, "drive_c/users/");
    let home = join(users.as_str(), user);
    join(home.as_str(), "AppData/Local")
}

/// What `whoami::realname` gives: the user's full name, read from the system.
/// Nothing is stated of it: it depends on the machine.
#[verifier::external_body]
fn real_name() -> Option<String> {
    whoami::realname().ok()
}

/// The local application data directory of the current user inside the Wine
/// prefix, named after the user's full name; `None` where the system gives no
/// name.
pub fn get_local_appdata_dir(prefix_path: &str) -> (r: Option<String>)
    ensures
        r matches Some(p) ==> exists|user: Seq<char>| p@ == local_appdata_in(prefix_path@, user),
{
    match real_name() {
        Some(user) => Some(local_appdata_dir_for(prefix_path, user.as_str())),
        None => None,
    }
}

} // verus!
