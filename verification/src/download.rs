use vstd::prelude::*;
use vstd::string::*;
use vstd::arithmetic::div_mod::{lemma_div_denominator, lemma_fundamental_div_mod};
use crate::number::{decimal_digits, digit_char, int_decimal, push_decimal, digit};
use crate::text::push_char;
use crate::paths::{join, path_join};
use crate::client_settings::{ClientDeployment, install_dir_of};
use crate::mirror::Package;
use std::io::Cursor;
use zip::ZipArchive;

verus! {

/// Two to the power `k`.
pub open spec fn pow_of_two(k: nat) -> nat
    decreases k,
{
    if k == 0 {
        1
    } else {
        2 * pow_of_two((k - 1) as nat)
    }
}

/// 1024 to the power `k`.
pub open spec fn pow1024(k: nat) -> nat
    decreases k,
{
    if k == 0 {
        1
    } else {
        1024 * pow1024((k - 1) as nat)
    }
}

/// `a / d` rounded to the nearest integer, halves to the even one.
pub open spec fn round_div_even(a: nat, d: nat) -> nat {
    let q = a / d;
    let r = a % d;
    if 2 * r > d || (2 * r == d && q % 2 == 1) {
        q + 1
    } else {
        q
    }
}

/// How many low bits of `n` a 53-bit significand cannot hold.
pub open spec fn f64_shift(n: nat) -> nat
    decreases n,
{
    if n < 0x20_0000_0000_0000 {
        0
    } else {
        1 + f64_shift(n / 2)
    }
}

/// The nearest `f64` to `n`, halves to the even significand, as `as f64`
/// converts an integer.
pub open spec fn f64_magnitude(n: nat) -> nat {
    let unit = pow_of_two(f64_shift(n));
    round_div_even(n, unit) * unit
}

/// The value of `size as f64`.
pub open spec fn as_f64(size: int) -> int {
    if size < 0 {
        -(f64_magnitude((-size) as nat) as int)
    } else {
        f64_magnitude(size as nat) as int
    }
}

/// The unit that `v` is shown in: the number of times it can be divided by
/// 1024 while it stays at least 1024, from `k` on, and five at most.
pub open spec fn unit_index_from(v: int, k: nat) -> nat
    decreases 5 - k,
{
    if k < 5 && v >= pow1024(k + 1) {
        unit_index_from(v, k + 1)
    } else {
        k
    }
}

/// The name of unit `k`.
pub open spec fn unit_name(k: nat) -> Seq<char> {
    if k == 0 {
        seq!['B']
    } else if k == 1 {
        seq!['K', 'B']
    } else if k == 2 {
        seq!['M', 'B']
    } else if k == 3 {
        seq!['G', 'B']
    } else if k == 4 {
        seq!['T', 'B']
    } else {
        seq!['P', 'B']
    }
}

/// A byte count as the launcher shows it: with two decimals, in the largest
/// unit (up to petabytes) that leaves at least one, rounded as `{:.2}` rounds
/// the `f64` value of the count.
pub open spec fn file_size_text(size: int) -> Seq<char> {
    let v = as_f64(size);
    if v < 1024 {
        int_decimal(v) + seq!['.', '0', '0'] + unit_name(0)
    } else {
        let k = unit_index_from(v, 0);
        let h = round_div_even((v * 100) as nat, pow1024(k));
        decimal_digits(h / 100) + seq!['.', digit_char((h % 100) / 10), digit_char(h % 10)]
            + unit_name(k)
    }
}

proof fn lemma_pow_of_two_pos(k: nat)
    ensures
        pow_of_two(k) >= 1,
    decreases k,
{
    if k > 0 {
        lemma_pow_of_two_pos((k - 1) as nat);
    }
}

proof fn lemma_pow1024_pos(k: nat)
    ensures
        pow1024(k) >= 1,
    decreases k,
{
    if k > 0 {
        lemma_pow1024_pos((k - 1) as nat);
    }
}

/// `a / d` rounded to the nearest integer, halves to the even one.
fn div_round_even(a: u128, d: u128) -> (r: u128)
    requires
        d > 0,
        a < 0x8000_0000_0000_0000_0000_0000_0000_0000u128,
    ensures
        r == round_div_even(a as nat, d as nat),
        r <= a / d + 1,
{
    let q = a / d;
    let rem = a % d;
    assert(q <= a) by (nonlinear_arith)
        requires
            q == a / d,
            d > 0,
    ;
    if rem > d - rem || (rem == d - rem && q % 2 == 1) {
        q + 1
    } else {
        q
    }
}

/// The magnitude of `n as f64`.
fn to_f64_magnitude(n: u64) -> (r: u128)
    ensures
        r == f64_magnitude(n as nat),
        r <= 0x20_0000_0000_0000u128 * 0x1_0000_0000_0000_0000u128,
        n >= 1 ==> r >= 1,
{
    let mut m: u128 = n as u128;
    let mut unit: u128 = 1;
    let ghost mut k: nat = 0;
    while m >= 0x20_0000_0000_0000
        invariant
            unit == pow_of_two(k),
            unit >= 1,
            unit == 1 || unit <= n,
            m == (n as nat) / (unit as nat),
            f64_shift(n as nat) == k + f64_shift(m as nat),
        decreases m,
    {
        proof {
            lemma_div_denominator(n as int, unit as int, 2);
            lemma_fundamental_div_mod(n as int, unit as int);
            assert(unit * 2 <= n) by (nonlinear_arith)
                requires
                    n as int == unit * m + (n as int) % (unit as int),
                    (n as int) % (unit as int) >= 0,
                    m >= 2,
                    unit >= 1,
            ;
        }
        m = m / 2;
        unit = unit * 2;
        proof {
            k = k + 1;
        }
    }
    proof {
        lemma_pow_of_two_pos(k);
        lemma_fundamental_div_mod(n as int, unit as int);
    }
    let q = div_round_even(n as u128, unit);
    assert(n >= 1 ==> m >= 1) by (nonlinear_arith)
        requires
            n as int == unit * m + (n as int) % (unit as int),
            (n as int) % (unit as int) < unit,
            unit == 1 || unit <= n,
    ;
    assert(q >= m);
    assert(q <= 0x20_0000_0000_0000);
    assert(q * unit <= 0x20_0000_0000_0000u128 * 0x1_0000_0000_0000_0000u128) by (nonlinear_arith)
        requires
            q <= 0x20_0000_0000_0000,
            unit >= 1,
            unit <= 0x1_0000_0000_0000_0000u128,
    ;
    assert(q >= 1 ==> q * unit >= 1) by (nonlinear_arith)
        requires
            unit >= 1,
    ;
    q * unit
}

/// Appends the name of unit `k` to `out`.
fn push_unit(out: &mut String, k: usize)
    requires
        k <= 5,
    ensures
        final(out)@ == old(out)@ + unit_name(k as nat),
{
    if k == 1 {
        push_char(out, 'K');
    } else if k == 2 {
        push_char(out, 'M');
    } else if k == 3 {
        push_char(out, 'G');
    } else if k == 4 {
        push_char(out, 'T');
    } else if k == 5 {
        push_char(out, 'P');
    }
    push_char(out, 'B');
    assert(k == 0 ==> final(out)@ =~= old(out)@ + unit_name(k as nat));
    assert(k > 0 ==> final(out)@ =~= old(out)@ + unit_name(k as nat));
}

/// A byte count as the launcher shows it, such as `1.50KB`.
pub fn format_file_size(size: i64) -> (r: String)
    ensures
        r@ == file_size_text(size as int),
{
    let negative = size < 0;
    let magnitude: u64 = if size == i64::MIN {
        0x8000_0000_0000_0000u64
    } else if negative {
        (-size) as u64
    } else {
        size as u64
    };
    let v = to_f64_magnitude(magnitude);
    let mut out = String::new();
    if negative || v < 1024 {
        // Below a kilobyte the value is a whole number of bytes.
        assert(negative ==> as_f64(size as int) == -(v as int));
        assert(!negative ==> as_f64(size as int) == v as int);
        let ghost before = out@;
        if negative {
            push_char(&mut out, '-');
        }
        push_decimal(&mut out, v);
        assert(out@ =~= int_decimal(as_f64(size as int))) by {
            if negative && v > 0 {
                assert(out@ =~= seq!['-'] + decimal_digits(v as nat));
            }
        }
        push_char(&mut out, '.');
        push_char(&mut out, '0');
        push_char(&mut out, '0');
        push_unit(&mut out, 0);
        assert(out@ =~= int_decimal(as_f64(size as int)) + seq!['.', '0', '0'] + unit_name(0));
        return out;
    }
    let mut k: usize = 0;
    let mut d: u128 = 1;
    while k < 5 && v >= d * 1024
        invariant
            k <= 5,
            d == pow1024(k as nat),
            d <= v,
            v <= 0x20_0000_0000_0000u128 * 0x1_0000_0000_0000_0000u128,
            v == as_f64(size as int),
            unit_index_from(v as int, 0) == unit_index_from(v as int, k as nat),
        decreases 5 - k,
    {
        d = d * 1024;
        k += 1;
    }
    proof {
        lemma_pow1024_pos(k as nat);
    }
    let h = div_round_even(v * 100, d);
    push_decimal(&mut out, h / 100);
    push_char(&mut out, '.');
    let frac = h % 100;
    push_char(&mut out, digit(frac / 10));
    push_char(&mut out, digit(frac % 10));
    push_unit(&mut out, k);
    out
}

/// The address of a package of a deployment on a mirror.
pub fn package_url(mirror: &str, deployment: &ClientDeployment, package: &Package) -> (r: String)
    ensures
        r@ == mirror@ + "/"@ + deployment.client_version_upload@ + "-"@ + package.name@,
{
    let mut r = String::from_str(mirror);
    r.append("/");
    r.append(deployment.client_version_upload.as_str());
    r.append("-");
    r.append(package.name.as_str());
    r
}

/// The directory that downloads are cached in.
pub fn get_download_dir(appdata_dir: &str) -> (r: String)
    ensures
        r@ == path_join(path_join(appdata_dir@, "cache"@), "downloads"@),
{
    let cache = crate::app_data::get_cache_dir(appdata_dir);
    join(cache.as_str(), "downloads")
}

/// The directory that downloaded packages are cached in.
pub fn get_packages_dir(appdata_dir: &str) -> (r: String)
    ensures
        r@ == path_join(path_join(path_join(appdata_dir@, "cache"@), "downloads"@), "packages"@),
{
    let downloads = get_download_dir(appdata_dir);
    join(downloads.as_str(), "packages")
}

/// The file that a downloaded package is cached in, named by its checksum.
pub fn get_package_dir(appdata_dir: &str, package: &Package) -> (r: String)
    ensures
        r@ == path_join(
            path_join(path_join(path_join(appdata_dir@, "cache"@), "downloads"@), "packages"@),
            package.checksum@,
        ),
{
    let packages = get_packages_dir(appdata_dir);
    join(packages.as_str(), package.checksum.as_str())
}

/// The text of the settings file that the launcher writes into a deployment.
pub open spec fn app_settings_text() -> Seq<char> {
    "<?xml version=\"1.0\" encoding=\"UTF-8\"?>\r\n"@ + "<Settings>\r\n"@
        + "        <ContentFolder>content</ContentFolder>\r\n"@
        + "        <BaseUrl>http://www.roblox.com</BaseUrl>\r\n"@ + "</Settings>\r\n"@
}

/// The text of the settings file that the launcher writes into a deployment.
pub fn app_settings_xml() -> (r: String)
    ensures
        r@ == app_settings_text(),
{
    let mut content = String::new();
    content.append("<?xml version=\"1.0\" encoding=\"UTF-8\"?>\r\n");
    content.append("<Settings>\r\n");
    content.append("        <ContentFolder>content</ContentFolder>\r\n");
    content.append("        <BaseUrl>http://www.roblox.com</BaseUrl>\r\n");
    content.append("</Settings>\r\n");
    assert(content@ =~= app_settings_text());
    content
}

#[verifier::external_type_specification]
#[verifier::external_body]
#[verifier::reject_recursive_types(R)]
pub struct ExZipArchive<R>(ZipArchive<R>);

#[verifier::external_type_specification]
#[verifier::external_body]
#[verifier::reject_recursive_types(T)]
pub struct ExCursor<T>(Cursor<T>);

/// A file of a zip archive: its name and its contents once decompressed, or
/// `None` where its name, its header or its data cannot be read.
pub type ZipEntry = Option<(Seq<char>, Seq<u8>)>;

/// The files that a zip archive holds, in the order of its central directory.
pub uninterp spec fn archive_entries(archive: ZipArchive<Cursor<Vec<u8>>>) -> Seq<ZipEntry>;

/// The files of the zip archive that `data` holds, in the order of its
/// central directory, or `None` where `data` does not hold one.
pub uninterp spec fn zip_entries_of(data: Seq<u8>) -> Option<Seq<ZipEntry>>;

/// Opens the zip archive in `data` with `ZipArchive::new`: `None` where the
/// archive cannot be read; its files are those that `data` holds.
#[verifier::external_body]
fn open_archive(data: Vec<u8>) -> (r: Option<ZipArchive<Cursor<Vec<u8>>>>)
    ensures
        r is Some <==> zip_entries_of(data@) is Some,
        r matches Some(a) ==> zip_entries_of(data@) == Some(archive_entries(a)),
{
    ZipArchive::new(Cursor::new(data)).ok()
}

/// How many files the archive holds, from `ZipArchive::len`.
#[verifier::external_body]
fn archive_len(archive: &ZipArchive<Cursor<Vec<u8>>>) -> (n: usize)
    ensures
        n == archive_entries(*archive).len(),
{
    archive.len()
}

/// File `i` of the archive, from `ZipArchive::by_index`, as its name and its
/// decompressed contents; `None` where there is no such file or it cannot be
/// read or decompressed.  `by_index` seeks to the file's own data, so what it
/// gives does not depend on earlier reads; reading moves the archive's reader,
/// not its files.
#[verifier::external_body]
fn archive_entry(archive: &mut ZipArchive<Cursor<Vec<u8>>>, i: usize) -> (r: Option<(String, Vec<u8>)>)
    ensures
        archive_entries(*final(archive)) == archive_entries(*old(archive)),
        i >= archive_entries(*old(archive)).len() ==> r is None,
        i < archive_entries(*old(archive)).len() ==> (r is Some <==> archive_entries(
            *old(archive),
        )[i as int] is Some),
        r matches Some(e) ==> archive_entries(*old(archive))[i as int] == Some((e.0@, e.1@)),
{
    let mut file = archive.by_index(i).ok()?;
    let name = file.name().ok()?.into_owned();
    let mut contents = Vec::new();
    std::io::Read::read_to_end(&mut file, &mut contents).ok()?;
    Some((name, contents))
}

/// A file to write while installing a package.
pub struct InstallFile {
    pub path: String,
    pub contents: Vec<u8>,
}

/// `name` with every `\` made a `/`.
pub open spec fn slashes(name: Seq<char>) -> Seq<char> {
    name.map_values(|c: char| if c == '\\' { '/' } else { c })
}

/// Where a file of a package goes under `root`, or `None` for a directory.
pub open spec fn entry_target(root: Seq<char>, name: Seq<char>) -> Option<Seq<char>> {
    let p = slashes(name);
    if p.len() > 0 && p.last() == '/' {
        None
    } else {
        Some(path_join(root, p))
    }
}

/// Every file of the archive can be read.
pub open spec fn all_readable(entries: Seq<ZipEntry>) -> bool {
    forall|i: int| 0 <= i < entries.len() ==> (#[trigger] entries[i]) is Some
}

/// The files to write for the archive's files, in order: each one that is not
/// a directory, at its place under `root`.
pub open spec fn install_plan(entries: Seq<ZipEntry>, root: Seq<char>) -> Seq<(Seq<char>, Seq<u8>)>
    decreases entries.len(),
{
    if entries.len() == 0 {
        Seq::empty()
    } else {
        let rest = install_plan(entries.drop_last(), root);
        match entries.last() {
            Some((name, contents)) => match entry_target(root, name) {
                Some(p) => rest.push((p, contents)),
                None => rest,
            },
            None => rest,
        }
    }
}

/// The files to write, as plain values.
pub open spec fn files_view(files: Seq<InstallFile>) -> Seq<(Seq<char>, Seq<u8>)> {
    files.map_values(|f: InstallFile| (f.path@, f.contents@))
}

/// Makes every `\` of `name` a `/`.
fn with_slashes(name: &str) -> (r: String)
    ensures
        r@ == slashes(name@),
{
    let chars = crate::text::chars_of(name);
    let mut r = String::new();
    let mut i: usize = 0;
    while i < chars.len()
        invariant
            i <= chars.len(),
            chars@ == name@,
            r@ == slashes(name@).take(i as int),
        decreases chars.len() - i,
    {
        let c = chars[i];
        push_char(&mut r, if c == '\\' { '/' } else { c });
        assert(slashes(name@).take(i + 1) =~= slashes(name@).take(i as int).push(
            slashes(name@)[i as int],
        ));
        i += 1;
    }
    assert(slashes(name@).take(chars.len() as int) =~= slashes(name@));
    r
}

/// The directory that a package is extracted into: `extraction_dir` inside the
/// deployment's install directory.
pub fn package_install_root(deployment: &ClientDeployment, appdata_dir: &str, extraction_dir: &str) -> (r: String)
    ensures
        r@ == path_join(install_dir_of(appdata_dir@, deployment.client_version_upload@), extraction_dir@),
{
    let install = deployment.get_install_dir(appdata_dir);
    join(install.as_str(), extraction_dir)
}

/// The files to write to install a package whose zip archive is `data`, under
/// `root`; `None` where the archive, or one of its files, cannot be read.
pub fn package_files(root: &str, data: Vec<u8>) -> (r: Option<Vec<InstallFile>>)
    ensures
        r is Some <==> (zip_entries_of(data@) matches Some(es) && all_readable(es)),
        r matches Some(files) ==> zip_entries_of(data@) matches Some(es) && files_view(files@)
            == install_plan(es, root@),
        r matches Some(files) ==> zip_entries_of(data@) matches Some(es) && forall|k: int|
            0 <= k < files.len() ==> exists|j: int, name: Seq<char>|
                0 <= j < es.len() && es[j] == Some((name, #[trigger] files@[k].contents@))
                    && files@[k].path@ == path_join(root@, slashes(name)),
{
    let ghost bytes = data@;
    let mut archive = match open_archive(data) {
        Some(a) => a,
        None => {
            return None;
        },
    };
    let ghost entries = archive_entries(archive);
    let n = archive_len(&archive);
    let mut files: Vec<InstallFile> = Vec::new();
    let mut i: usize = 0;
    while i < n
        invariant
            i <= n,
            n == entries.len(),
            archive_entries(archive) == entries,
            zip_entries_of(bytes) == Some(entries),
            bytes == data@,
            forall|k: int| 0 <= k < i ==> (#[trigger] entries[k]) is Some,
            files_view(files@) == install_plan(entries.take(i as int), root@),
        decreases n - i,
    {
        let entry = archive_entry(&mut archive, i);
        let (name, contents) = match entry {
            Some(e) => e,
            None => {
                assert(!all_readable(entries)) by {
                    assert(entries[i as int] is None);
                }
                return None;
            },
        };
        assert(entries.take(i + 1).drop_last() =~= entries.take(i as int));
        assert(entries.take(i + 1).last() == entries[i as int]);
        let p = with_slashes(name.as_str());
        let len = p.unicode_len();
        if len > 0 && p.as_str().get_char(len - 1) == '/' {
        } else {
            let path = join(root, p.as_str());
            let ghost before = files@;
            files.push(InstallFile { path, contents });
            assert(files_view(files@) =~= files_view(before).push((path_join(root@, slashes(name@)), contents@)));
        }
        i += 1;
    }
    assert(entries.take(n as int) =~= entries);
    assert(all_readable(entries));
    proof {
        lemma_install_plan_under_root(entries, root@);
        assert forall|k: int| 0 <= k < files.len() implies exists|j: int, name: Seq<char>|
            0 <= j < entries.len() && entries[j] == Some((name, #[trigger] files@[k].contents@))
                && files@[k].path@ == path_join(root@, slashes(name)) by {
            assert(files_view(files@)[k] == (files@[k].path@, files@[k].contents@));
        }
    }
    Some(files)
}

/// Every file that installing an archive writes is one of its files, at its
/// name (with `\` made `/`) joined onto the install root, with its contents.
pub proof fn lemma_install_plan_under_root(entries: Seq<ZipEntry>, root: Seq<char>)
    ensures
        forall|k: int|
            0 <= k < install_plan(entries, root).len() ==> exists|j: int, name: Seq<char>|
                0 <= j < entries.len() && entries[j] == Some(
                    (name, (#[trigger] install_plan(entries, root)[k]).1),
                ) && install_plan(entries, root)[k].0 == path_join(root, slashes(name)),
    decreases entries.len(),
{
    if entries.len() > 0 {
        let init = entries.drop_last();
        lemma_install_plan_under_root(init, root);
        let plan = install_plan(entries, root);
        let rest = install_plan(init, root);
        assert forall|k: int| 0 <= k < plan.len() implies exists|j: int, name: Seq<char>|
            0 <= j < entries.len() && entries[j] == Some((name, (#[trigger] plan[k]).1))
                && plan[k].0 == path_join(root, slashes(name)) by {
            if k < rest.len() {
                assert(plan[k] == rest[k]);
                let (j, name) = choose|j: int, name: Seq<char>|
                    0 <= j < init.len() && init[j] == Some((name, (#[trigger] rest[k]).1))
                        && rest[k].0 == path_join(root, slashes(name));
                assert(entries[j] == init[j]);
            } else {
                let j = entries.len() - 1;
                let (name, contents) = entries.last()->Some_0;
                assert(entries[j] == Some((name, contents)));
            }
        }
    }
}

} // verus!
