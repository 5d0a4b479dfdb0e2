use vstd::prelude::*;
use vstd::string::*;
use crate::client_settings::ClientDeployment;
use crate::number::{parse_i64, parse_i64_spec};
use crate::text::{chars_of, split_crlf, split_crlf_bounds, string_of, pieces_of, bounds_within};

verus! {

/// One package of a deployment, as its manifest lists it.
#[derive(Clone)]
pub struct Package {
    pub name: String,
    pub checksum: String,
    pub size: i64,
    pub zipsize: i64,
}

/// How many packages a manifest with these lines lists: the lines after the
/// header, in groups of four, the last group possibly cut short by the final
/// empty line.
pub open spec fn package_count(lines: Seq<Seq<char>>) -> int {
    if lines.len() <= 2 {
        0
    } else {
        (lines.len() as int + 1) / 4
    }
}

/// The manifest can be read: its last group of four lines is whole, and
/// every size in it reads as an `i64`.
pub open spec fn manifest_well_formed(manifest: Seq<char>) -> bool {
    let lines = split_crlf(manifest);
    &&& (lines.len() <= 2 || 4 * package_count(lines) < lines.len())
    &&& forall|k: int|
        0 <= k < package_count(lines) ==> (#[trigger] parse_i64_spec(lines[4 * k + 3])) is Some
            && parse_i64_spec(lines[4 * k + 4]) is Some
}

/// Package `k` is what lines `4k+1` to `4k+4` of the manifest say.
pub open spec fn package_from_lines(p: Package, lines: Seq<Seq<char>>, k: int) -> bool {
    &&& p.name@ == lines[4 * k + 1]
    &&& p.checksum@ == lines[4 * k + 2]
    &&& Some(p.size) == parse_i64_spec(lines[4 * k + 3])
    &&& Some(p.zipsize) == parse_i64_spec(lines[4 * k + 4])
}

/// The packages that a manifest lists, in order.
pub open spec fn packages_of(ps: Seq<Package>, manifest: Seq<char>) -> bool {
    let lines = split_crlf(manifest);
    &&& ps.len() == package_count(lines)
    &&& forall|k: int| 0 <= k < ps.len() ==> package_from_lines(#[trigger] ps[k], lines, k)
}

/// The packages of a manifest (lines separated by `"\r\n"`: a header, then
/// four lines for each package: name, checksum, size, zipped size), or
/// `None` where the manifest cannot be read.
pub fn try_parse_rbx_pkg_manifest(manifest: &str) -> (r: Option<Vec<Package>>)
    ensures
        r is Some <==> manifest_well_formed(manifest@),
        r matches Some(ps) ==> packages_of(ps@, manifest@),
        r matches Some(ps) ==> 4 * ps.len() + 1 == split_crlf(manifest@).len() || 4 * ps.len() + 2
            == split_crlf(manifest@).len(),
{
    let chars = chars_of(manifest);
    let lines = split_crlf_bounds(&chars, 0, chars.len());
    assert(chars@.subrange(0, chars.len() as int) =~= manifest@);
    let ghost ls = split_crlf(manifest@);
    proof {
        crate::text::lemma_split_crlf_nonempty(manifest@);
    }
    let count = lines.len();
    let mut packages: Vec<Package> = Vec::new();
    let mut i: usize = 1;
    while i < count
        invariant
            count == lines.len(),
            count == ls.len(),
            count >= 1,
            chars@ == manifest@,
            ls == split_crlf(manifest@),
            pieces_of(chars@, lines@) == ls,
            bounds_within(lines@, 0, chars.len() as int),
            i == 4 * packages.len() + 1 || (i == count && count <= 2) || (i == count
                && 4 * packages.len() + 1 == count - 1),
            4 * packages.len() + 1 <= count || count == 1,
            count <= 2 ==> packages.len() == 0,
            forall|k: int|
                0 <= k < packages.len() ==> package_from_lines(#[trigger] packages@[k], ls, k),
        decreases count - i,
    {
        if i >= count - 1 {
            // The manifest ends with a line break, which leaves one empty line.
            i += 1;
            continue;
        }
        if count - i <= 3 {
            return None;
        }
        let (a0, b0) = lines[i];
        let (a1, b1) = lines[i + 1];
        let (a2, b2) = lines[i + 2];
        let (a3, b3) = lines[i + 3];
        assert(ls[i as int] == chars@.subrange(a0 as int, b0 as int));
        assert(ls[i + 1] == chars@.subrange(a1 as int, b1 as int));
        assert(ls[i + 2] == chars@.subrange(a2 as int, b2 as int));
        assert(ls[i + 3] == chars@.subrange(a3 as int, b3 as int));
        let size = parse_i64(&chars, a2, b2);
        let zipsize = parse_i64(&chars, a3, b3);
        let ghost k = packages.len() as int;
        if size.is_none() || zipsize.is_none() {
            assert(!manifest_well_formed(manifest@)) by {
                assert(k < package_count(ls));
                assert(4 * k + 3 == i + 2);
            }
            return None;
        }
        let p = Package {
            name: string_of(&chars, a0, b0),
            checksum: string_of(&chars, a1, b1),
            size: size.unwrap(),
            zipsize: zipsize.unwrap(),
        };
        packages.push(p);
        i += 4;
    }
    assert(packages.len() == package_count(ls)) by {
        let n = packages.len() as int;
        if count <= 2 {
        } else if i == 4 * n + 1 {
            assert(count == 4 * n + 1);
            assert((4 * n + 2) / 4 == n);
        } else {
            assert(count == 4 * n + 2);
            assert((4 * n + 3) / 4 == n);
        }
    }
    assert(manifest_well_formed(manifest@)) by {
        assert forall|k: int| 0 <= k < package_count(ls) implies (#[trigger] parse_i64_spec(
            ls[4 * k + 3],
        )) is Some && parse_i64_spec(ls[4 * k + 4]) is Some by {
            assert(package_from_lines(packages@[k], ls, k));
        }
    }
    proof {
        lemma_manifest_packages_use_every_line(packages@, manifest@);
    }
    Some(packages)
}

/// Every line of a readable manifest after its header belongs to one package,
/// four lines each, but for at most one line at its end: a manifest of `L`
/// lines lists `(L - 1) / 4` packages, or `(L - 2) / 4` where a last line
/// (the one after the final line break) is left over.
pub proof fn lemma_manifest_packages_use_every_line(ps: Seq<Package>, manifest: Seq<char>)
    requires
        manifest_well_formed(manifest),
        packages_of(ps, manifest),
    ensures
        4 * ps.len() + 1 == split_crlf(manifest).len() || 4 * ps.len() + 2 == split_crlf(
            manifest,
        ).len(),
{
    crate::text::lemma_split_crlf_nonempty(manifest);
    let l = split_crlf(manifest).len() as int;
    if l > 2 {
        let q = (l + 1) / 4;
        assert(4 * q <= l + 1 && l + 1 < 4 * q + 4);
        assert(4 * q < l);
    }
}

/// The packages of a manifest that can be read.
pub fn parse_rbx_pkg_manifest(manifest: &str) -> (r: Vec<Package>)
    requires
        manifest_well_formed(manifest@),
    ensures
        packages_of(r@, manifest@),
{
    match try_parse_rbx_pkg_manifest(manifest) {
        Some(ps) => ps,
        None => Vec::new(),
    }
}

/// Whether the first line of the manifest is the `v0` header.
pub fn manifest_header_valid(manifest: &str) -> (r: bool)
    ensures
        r == (split_crlf(manifest@)[0] == seq!['v', '0']),
{
    let chars = chars_of(manifest);
    let lines = split_crlf_bounds(&chars, 0, chars.len());
    assert(chars@.subrange(0, chars.len() as int) =~= manifest@);
    proof {
        crate::text::lemma_split_crlf_nonempty(manifest@);
    }
    let (a, b) = lines[0];
    let ghost first = chars@.subrange(a as int, b as int);
    assert(split_crlf(manifest@)[0] == first);
    if b - a == 2 && chars[a] == 'v' && chars[a + 1] == '0' {
        assert(first =~= seq!['v', '0']);
        true
    } else {
        assert(first != seq!['v', '0']) by {
            if first.len() == 2 {
                assert(first[0] == chars@[a as int]);
                assert(first[1] == chars@[a + 1]);
            }
        }
        false
    }
}

/// The address of a deployment's package manifest on a mirror.
pub fn manifest_url(mirror: &str, deployment: &ClientDeployment) -> (r: String)
    ensures
        r@ == mirror@ + "/"@ + deployment.client_version_upload@ + "-rbxPkgManifest.txt"@,
{
    let mut r = String::from_str(mirror);
    r.append("/");
    r.append(deployment.client_version_upload.as_str());
    r.append("-rbxPkgManifest.txt");
    r
}

/// The mirrors that deployments are fetched from, in the order they are tried.
pub open spec fn mirror_at(i: int) -> Seq<char> {
    if i == 0 {
        "https://setup.rbxcdn.com"@
    } else if i == 1 {
        "https://roblox-setup.cachefly.net"@
    } else {
        "https://s3.amazonaws.com/setup.roblox.com"@
    }
}

/// How many mirrors there are.
pub open spec fn mirror_count() -> int {
    3
}

/// The text given when no mirror answers.
pub open spec fn no_mirror_error() -> Seq<char> {
    "Couldn't find a valid mirror"@
}

/// The next thing to do while looking for a mirror.
pub enum MirrorStep {
    /// Send a request to the mirror with this index and address.
    Probe(usize, String),
    /// The mirror with this index and address answered: use it.
    Found(usize, String),
    /// No mirror answered.
    Failed(String),
}

/// A step of the search, without its texts.
#[derive(Clone, Copy, PartialEq, Eq, Structural)]
pub enum MirrorMove {
    Probe(usize),
    Found(usize),
    Failed,
}

pub open spec fn move_of(step: MirrorStep) -> MirrorMove {
    match step {
        MirrorStep::Probe(i, _) => MirrorMove::Probe(i),
        MirrorStep::Found(i, _) => MirrorMove::Found(i),
        MirrorStep::Failed(_) => MirrorMove::Failed,
    }
}

/// What the search does once mirror `i` has answered (`reachable`) or not:
/// use it, try the next one, or give up after the last.
pub open spec fn mirror_move(i: int, reachable: bool) -> MirrorMove {
    if reachable {
        MirrorMove::Found(i as usize)
    } else if i + 1 < mirror_count() {
        MirrorMove::Probe((i + 1) as usize)
    } else {
        MirrorMove::Failed
    }
}

/// The texts that a step carries: the mirror's address, or the error.
pub open spec fn step_texts_agree(step: MirrorStep) -> bool {
    match step {
        MirrorStep::Probe(i, m) => m@ == mirror_at(i as int),
        MirrorStep::Found(i, m) => m@ == mirror_at(i as int),
        MirrorStep::Failed(e) => e@ == no_mirror_error(),
    }
}

/// The address of the mirror with index `i`.
pub fn mirror(i: usize) -> (r: String)
    requires
        i < mirror_count(),
    ensures
        r@ == mirror_at(i as int),
{
    if i == 0 {
        String::from_str("https://setup.rbxcdn.com")
    } else if i == 1 {
        String::from_str("https://roblox-setup.cachefly.net")
    } else {
        String::from_str("https://s3.amazonaws.com/setup.roblox.com")
    }
}

/// The first step of looking for a mirror: try the first one.
pub fn get_mirror_start() -> (r: MirrorStep)
    ensures
        move_of(r) == MirrorMove::Probe(0),
        step_texts_agree(r),
{
    MirrorStep::Probe(0, mirror(0))
}

/// The step after the mirror with index `i` answered (`reachable`) or not.
pub fn get_mirror_next(i: usize, reachable: bool) -> (r: MirrorStep)
    requires
        i < mirror_count(),
    ensures
        move_of(r) == mirror_move(i as int, reachable),
        step_texts_agree(r),
{
    if reachable {
        MirrorStep::Found(i, mirror(i))
    } else if i + 1 < 3 {
        MirrorStep::Probe(i + 1, mirror(i + 1))
    } else {
        MirrorStep::Failed(String::from_str("Couldn't find a valid mirror"))
    }
}

/// Where the search ends when it is at mirror `i` and `answers` says which
/// mirrors answer.
pub open spec fn mirror_drive(answers: Seq<bool>, i: int) -> MirrorMove
    decreases mirror_count() - i,
{
    if i < 0 || i >= mirror_count() {
        MirrorMove::Failed
    } else {
        match mirror_move(i, answers[i]) {
            MirrorMove::Probe(j) => mirror_drive(answers, j as int),
            m => m,
        }
    }
}

/// Looking for a mirror, from the first on, ends at the first mirror that
/// answers, and fails only when none does.
pub proof fn lemma_get_mirror_finds_first_reachable(answers: Seq<bool>)
    requires
        answers.len() == mirror_count(),
    ensures
        mirror_drive(answers, 0) matches MirrorMove::Found(k) ==> k < mirror_count() && answers[k as int]
            && forall|j: int| 0 <= j < k ==> !answers[j],
        mirror_drive(answers, 0) is Failed ==> forall|j: int| 0 <= j < mirror_count() ==> !answers[j],
        !(mirror_drive(answers, 0) is Probe),
{
    lemma_mirror_drive_from(answers, 0);
}

proof fn lemma_mirror_drive_from(answers: Seq<bool>, i: int)
    requires
        answers.len() == mirror_count(),
        0 <= i <= mirror_count(),
    ensures
        mirror_drive(answers, i) matches MirrorMove::Found(k) ==> i <= k < mirror_count() && answers[k as int]
            && forall|j: int| i <= j < k ==> !answers[j],
        mirror_drive(answers, i) is Failed ==> forall|j: int| i <= j < mirror_count() ==> !answers[j],
        !(mirror_drive(answers, i) is Probe),
    decreases mirror_count() - i,
{
    if i < mirror_count() && !answers[i] && i + 1 < mirror_count() {
        lemma_mirror_drive_from(answers, i + 1);
    }
}

} // verus!
