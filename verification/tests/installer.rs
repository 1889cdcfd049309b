use std::io::Write;

use engine::installer::{installer_files, InstallerError};

fn jar(entries: &[(&str, &[u8])], dirs: &[&str]) -> Vec<u8> {
    let mut writer = zip::ZipWriter::new(std::io::Cursor::new(Vec::new()));
    let options = zip::write::SimpleFileOptions::default();
    for dir in dirs {
        writer.add_directory(*dir, options).unwrap();
    }
    for (name, content) in entries {
        writer.start_file(*name, options).unwrap();
        writer.write_all(content).unwrap();
    }
    writer.finish().unwrap().into_inner()
}

#[test]
fn a_non_zip_installer_is_refused() {
    assert_eq!(installer_files(b"not a zip at all").unwrap_err(), InstallerError::NotAZip);
}

#[test]
fn only_the_documents_and_data_files_are_taken() {
    let bytes = jar(
        &[
            ("version.json", b"{\"id\":\"neoforge\"}"),
            ("install_profile.json", b"{\"data\":{}}"),
            ("data/client.lzma", b"patch"),
            ("maven/net/neoforged/x.jar", b"jar"),
            ("data/server_args.txt", b"args"),
        ],
        &["data/"],
    );
    let files = installer_files(&bytes).unwrap();
    assert_eq!(files.version, b"{\"id\":\"neoforge\"}");
    assert_eq!(files.profile, b"{\"data\":{}}");
    let names: Vec<&str> = files.data.iter().map(|(n, _)| n.as_str()).collect();
    assert_eq!(names, ["data/client.lzma", "data/server_args.txt"]);
    assert_eq!(files.data[0].1, b"patch");
}

#[test]
fn an_installer_missing_a_document_is_refused() {
    let no_version = jar(&[("install_profile.json", b"{}")], &[]);
    assert_eq!(installer_files(&no_version).unwrap_err(), InstallerError::NoVersion);
    let no_profile = jar(&[("version.json", b"{}")], &[]);
    assert_eq!(installer_files(&no_profile).unwrap_err(), InstallerError::NoProfile);
}
