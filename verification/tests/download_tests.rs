use rumester::client_settings::ClientDeployment;
use rumester::download::{
    app_settings_xml, format_file_size, get_download_dir, get_package_dir, get_packages_dir,
    package_files, package_install_root, package_url,
};
use rumester::mirror::Package;
use std::io::Write;

/// The original computation, in floating point.
fn float_file_size(size: i64) -> String {
    const UNITS: [&str; 6] = ["B", "KB", "MB", "GB", "TB", "PB"];
    let mut size = size as f64;
    let mut unit_index = 0;
    while size >= 1024.0 && unit_index < UNITS.len() - 1 {
        size /= 1024.0;
        unit_index += 1;
    }
    format!("{:.2}{}", size, UNITS[unit_index])
}

#[test]
fn format_file_size_examples() {
    assert_eq!(format_file_size(0), "0.00B");
    assert_eq!(format_file_size(1000), "1000.00B");
    assert_eq!(format_file_size(1023), "1023.00B");
    assert_eq!(format_file_size(1024), "1.00KB");
    assert_eq!(format_file_size(1536), "1.50KB");
    assert_eq!(format_file_size(1048576), "1.00MB");
    assert_eq!(format_file_size(-5), "-5.00B");
    assert_eq!(format_file_size(1024i64.pow(5) * 3), "3.00PB");
    assert_eq!(format_file_size(1024i64.pow(5) * 5000), "5000.00PB");
}

#[test]
fn format_file_size_matches_float_formatting() {
    let mut values: Vec<i64> = vec![
        i64::MIN, i64::MIN + 1, i64::MAX, i64::MAX - 1, -1, 1, 1025, 1152, 1153, 1151,
        1034, 1035, 1029, 10239, 10240, 10245, 10250, 2047, 2048, 1_000_000, 123_456_789,
        9_007_199_254_740_993, -9_007_199_254_740_993, 9_007_199_254_740_995,
        18_014_398_509_481_987, 1_152_921_504_606_846_975,
    ];
    // Sizes around every tie of the second decimal in the first units.
    for k in 1..5u32 {
        let d = 1024i64.pow(k);
        for m in 1..400i64 {
            let base = m * d / 100;
            for delta in -2..3 {
                values.push(base + delta);
                values.push(m * d + delta);
            }
        }
        values.push(d * 1023 + d / 2);
        values.push(d * 1023 + d / 200);
        values.push(d * 1023 + d / 200 * 3);
    }
    let mut x: u64 = 0x9E37_79B9_7F4A_7C15;
    for _ in 0..20000 {
        x ^= x << 13;
        x ^= x >> 7;
        x ^= x << 17;
        let shift = (x % 64) as u32;
        values.push((x >> shift) as i64);
        values.push(-((x >> (shift + 1).min(63)) as i64));
    }
    for v in values {
        assert_eq!(format_file_size(v), float_file_size(v), "size {}", v);
    }
}

fn deployment() -> ClientDeployment {
    ClientDeployment {
        version: "0.600.1.6000123".to_string(),
        client_version_upload: "version-0123456789abcdef".to_string(),
    }
}

fn package(name: &str) -> Package {
    Package { name: name.to_string(), checksum: "cafebabe".to_string(), size: 10, zipsize: 5 }
}

#[test]
fn package_url_example() {
    assert_eq!(
        package_url("https://setup.rbxcdn.com", &deployment(), &package("RobloxApp.zip")),
        "https://setup.rbxcdn.com/version-0123456789abcdef-RobloxApp.zip"
    );
}

#[test]
fn download_cache_paths() {
    assert_eq!(get_download_dir("/data/rumester"), "/data/rumester/cache/downloads");
    assert_eq!(get_packages_dir("/data/rumester"), "/data/rumester/cache/downloads/packages");
    assert_eq!(
        get_package_dir("/data/rumester", &package("a.zip")),
        "/data/rumester/cache/downloads/packages/cafebabe"
    );
}

#[test]
fn app_settings_text() {
    assert_eq!(
        app_settings_xml(),
        "<?xml version=\"1.0\" encoding=\"UTF-8\"?>\r\n<Settings>\r\n        <ContentFolder>content</ContentFolder>\r\n        <BaseUrl>http://www.roblox.com</BaseUrl>\r\n</Settings>\r\n"
    );
}

fn zip_of(files: &[(&str, &[u8])]) -> Vec<u8> {
    let mut w = zip::ZipWriter::new(std::io::Cursor::new(Vec::new()));
    for (name, data) in files {
        if name.ends_with('/') {
            w.add_directory(name.trim_end_matches('/'), zip::write::SimpleFileOptions::default())
                .unwrap();
        } else {
            w.start_file(*name, zip::write::SimpleFileOptions::default()).unwrap();
            w.write_all(data).unwrap();
        }
    }
    w.finish().unwrap().into_inner()
}

#[test]
fn package_files_lists_files_under_root() {
    let data = zip_of(&[
        ("content/", b""),
        ("content\\fonts\\a.ttf", b"font"),
        ("RobloxPlayerBeta.exe", b"exe"),
    ]);
    let root = package_install_root(&deployment(), "/d", "");
    assert_eq!(root, "/d/deployments/version-0123456789abcdef/");
    let files = package_files(&root, data).unwrap();
    let got: Vec<(String, Vec<u8>)> =
        files.into_iter().map(|f| (f.path, f.contents)).collect();
    assert_eq!(
        got,
        vec![
            ("/d/deployments/version-0123456789abcdef/content/fonts/a.ttf".to_string(), b"font".to_vec()),
            ("/d/deployments/version-0123456789abcdef/RobloxPlayerBeta.exe".to_string(), b"exe".to_vec()),
        ]
    );
}

#[test]
fn package_files_refuses_what_is_not_a_zip() {
    assert!(package_files("/d", b"not a zip".to_vec()).is_none());
}
