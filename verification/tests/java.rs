use engine::java::{
    archive_format, ArchiveFormat,
    find_installed, host_target, install_start, java_candidates, package_from_json,
    releases_from_json, runtime_from_record, runtime_record, sort_runtimes, validate_archive_name,
    InstallPaths, InstallStart, Java, JavaError, JavaPackage, JavaRelease, JavaRuntime,
};
use engine::json::Json;
use engine::profile::{Checksum, HashAlgorithm};

fn s(text: &str) -> Json {
    Json::Str(text.to_string())
}

fn obj(fields: Vec<(&str, Json)>) -> Json {
    Json::Object(fields.into_iter().map(|(k, v)| (k.to_string(), v)).collect())
}

fn asset(os: &str, arch: &str, image: &str) -> Json {
    obj(vec![
        (
            "binary",
            obj(vec![
                ("os", s(os)),
                ("architecture", s(arch)),
                ("image_type", s(image)),
                (
                    "package",
                    obj(vec![
                        ("link", s("https://example/jdk.tar.gz")),
                        ("name", s("jdk.tar.gz")),
                        ("checksum", s(&"ab".repeat(32))),
                    ]),
                ),
            ]),
        ),
        ("release_name", s("jdk-21.0.5+11")),
    ])
}

fn runtime(major: i32, home: &str) -> JavaRuntime {
    JavaRuntime {
        vendor: "temurin".into(),
        major,
        release_name: format!("jdk-{major}"),
        home: home.into(),
        executable: format!("{home}/bin/java"),
        in_use: false,
    }
}

#[test]
fn a_host_maps_to_adoptiums_vocabulary() {
    let t = host_target("macos", "aarch64").unwrap();
    assert_eq!((t.os.as_str(), t.arch.as_str()), ("mac", "aarch64"));
    let t = host_target("linux", "x86_64").unwrap();
    assert_eq!((t.os.as_str(), t.arch.as_str()), ("linux", "x64"));
    let t = host_target("windows", "x86_64").unwrap();
    assert_eq!(t.os, "windows");
    assert_eq!(host_target("linux", "riscv64").unwrap_err(), JavaError::UnsupportedArch);
}

#[test]
fn the_executable_is_looked_for_in_bin_then_the_bundle() {
    assert_eq!(
        java_candidates("/rt/temurin-21", false),
        ["/rt/temurin-21/bin/java", "/rt/temurin-21/Contents/Home/bin/java"]
    );
    assert_eq!(java_candidates("C:/rt", true)[0], "C:/rt/bin/java.exe");
}

#[test]
fn the_first_jdk_for_the_platform_is_taken() {
    let target = host_target("linux", "x86_64").unwrap();
    let assets = Json::Array(vec![
        asset("linux", "x64", "jre"),
        asset("mac", "x64", "jdk"),
        asset("linux", "x64", "jdk"),
    ]);
    let p = package_from_json(&assets, 21, &target).unwrap();
    assert_eq!(p.vendor, "temurin");
    assert_eq!(p.major, 21);
    assert_eq!(p.archive_name, "jdk.tar.gz");
    assert_eq!(p.url, "https://example/jdk.tar.gz");
    assert_eq!(p.checksum.algorithm, HashAlgorithm::Sha256);
    let none = Json::Array(vec![asset("mac", "x64", "jdk")]);
    assert!(matches!(
        package_from_json(&none, 21, &target),
        Err(JavaError::NoBuild { major: 21, .. })
    ));
    assert_eq!(package_from_json(&obj(vec![]), 21, &target).unwrap_err(), JavaError::AssetsNotArray);
}

#[test]
fn releases_come_sorted_with_their_lts_flag() {
    let j = obj(vec![
        ("available_releases", Json::Array(vec![Json::PosInt(21), Json::PosInt(8), Json::PosInt(17)])),
        ("available_lts_releases", Json::Array(vec![Json::PosInt(8), Json::PosInt(21)])),
    ]);
    assert_eq!(
        releases_from_json(&j).unwrap(),
        vec![
            JavaRelease { major: 8, lts: true },
            JavaRelease { major: 17, lts: false },
            JavaRelease { major: 21, lts: true },
        ]
    );
    assert_eq!(releases_from_json(&obj(vec![])).unwrap_err(), JavaError::MissingReleases);
}

#[test]
fn an_archive_name_may_not_leave_the_scratch_directory() {
    assert_eq!(validate_archive_name("jdk.tar.gz"), Ok(()));
    for bad in ["", ".hidden", "a/b", "a\\b", "a\"b"] {
        assert_eq!(
            validate_archive_name(bad),
            Err(JavaError::UnsafeArchiveName(bad.to_string()))
        );
    }
}

#[test]
fn an_install_stages_beside_its_directory_and_records_what_it_put_there() {
    let package = JavaPackage {
        vendor: "temurin".into(),
        major: 21,
        release_name: "jdk-21.0.5+11".into(),
        url: "https://example/jdk.tar.gz".into(),
        archive_name: "jdk.tar.gz".into(),
        checksum: Checksum { algorithm: HashAlgorithm::Sha256, hex: "ab".repeat(32) },
    };
    let paths = InstallPaths::for_package("/data/java", &package);
    assert_eq!(paths.install_dir, "/data/java/temurin-21");
    assert_eq!(paths.staging, "/data/java/temurin-21.staging");
    assert_eq!(paths.archive, "/data/java/tmp/jdk.tar.gz");
    let record = runtime_record(&package, "jdk-21.0.5+11/bin/java");
    let rt = runtime_from_record(&paths.install_dir, &record).unwrap();
    assert_eq!(rt.major, 21);
    assert_eq!(rt.vendor, "temurin");
    assert_eq!(rt.release_name, "jdk-21.0.5+11");
    assert_eq!(rt.executable, "/data/java/temurin-21/jdk-21.0.5+11/bin/java");
    assert_eq!(rt.home, "/data/java/temurin-21/jdk-21.0.5+11");
    assert!(runtime_from_record("/x", &obj(vec![("major", Json::PosInt(0))])).is_none());
    let dotted = obj(vec![("major", Json::PosInt(17)), ("executable", s("./bin/java"))]);
    assert_eq!(runtime_from_record("/inst", &dotted).unwrap().home, "/inst");
}

#[test]
fn an_installed_major_is_reused_unless_forced() {
    let installed = sort_runtimes(&vec![runtime(21, "/a"), runtime(8, "/b"), runtime(17, "/c")]);
    let majors: Vec<i32> = installed.iter().map(|r| r.major).collect();
    assert_eq!(majors, [8, 17, 21]);
    assert_eq!(find_installed(&installed, 17), Some(1));
    assert_eq!(find_installed(&installed, 11), None);
    assert_eq!(install_start(17, false, &installed), Ok(InstallStart::AlreadyInstalled(1)));
    assert_eq!(install_start(17, true, &installed), Ok(InstallStart::Fetch));
    assert_eq!(install_start(11, false, &installed), Ok(InstallStart::Fetch));
    assert_eq!(install_start(0, false, &installed), Err(JavaError::InvalidMajor));
}

#[test]
fn an_interrupted_install_is_reclaimed_from_the_store_directory() {
    let mut java = Java::new("/data/java".into());
    let plan = java.reclaim();
    assert_eq!(plan.base, "/data/java");
    assert_eq!(plan.staging_suffix, ".staging");
    assert_eq!(plan.scratch, "/data/java/tmp");
    java.reload("/other".into());
    assert_eq!(java.dir(), "/other");
}

#[test]
fn an_archive_is_unpacked_by_the_format_its_name_announces() {
    assert_eq!(archive_format("OpenJDK21U-jdk_x64_windows_hotspot_21.0.5_11.zip"), Ok(ArchiveFormat::Zip));
    assert_eq!(archive_format("OpenJDK21U-jdk_x64_linux_hotspot_21.0.5_11.tar.gz"), Ok(ArchiveFormat::TarGz));
    assert_eq!(archive_format("jdk.tgz"), Ok(ArchiveFormat::TarGz));
    assert_eq!(
        archive_format("jdk.pkg"),
        Err(JavaError::UnsupportedArchive("jdk.pkg".to_string()))
    );
}
