use engine::transfer::{daemon_local_path, export_destination, ExportTarget, PathError};

#[test]
fn an_empty_destination_lands_in_the_data_homes_exports() {
    let exports = "/home/u/.hestia/exports";
    let target = export_destination("", exports, false).unwrap();
    assert_eq!(target, ExportTarget::Exports(exports.to_string()));
    let target = export_destination("   ", exports, true).unwrap();
    assert_eq!(target, ExportTarget::Exports(exports.to_string()));
}

#[test]
fn a_named_file_is_taken_as_given() {
    let dest = "/tmp/share/cozy.mrpack";
    let target = export_destination(dest, "/exports", false).unwrap();
    assert_eq!(target, ExportTarget::File(dest.to_string()));
}

#[test]
fn a_named_directory_receives_a_generated_name() {
    let target = export_destination(" /srv/backups ", "/exports", true).unwrap();
    assert_eq!(target, ExportTarget::IntoDirectory("/srv/backups".to_string()));
}

#[test]
fn a_relative_path_is_refused_because_the_daemon_is_a_different_process() {
    let error = export_destination("./cozy.hestia", "/exports", false).unwrap_err();
    assert_eq!(error, PathError::NotAbsolute);
    assert!(error.message().contains("absolute"), "{}", error.message());
    assert!(daemon_local_path("   ").is_err());
    assert_eq!(daemon_local_path("   "), Err(PathError::FieldRequired));
}

#[test]
fn an_absolute_path_is_trimmed_and_kept() {
    assert_eq!(daemon_local_path("  /a/b.zip \n"), Ok("/a/b.zip".to_string()));
    assert_eq!(daemon_local_path("a/b.zip"), Err(PathError::NotAbsolute));
    assert_eq!(PathError::FieldRequired.message(), "path is required");
}

#[test]
fn exports_sit_under_the_data_home() {
    assert_eq!(engine::transfer::exports_dir("/home/u/.hestia"), "/home/u/.hestia/exports");
    let layout = engine::home::layout("/home/u/.hestia");
    assert_eq!(layout.cache, "/home/u/.hestia/cache");
    assert_eq!(layout.accounts, "/home/u/.hestia/accounts.json");
    assert_eq!(layout.processes, "/home/u/.hestia/processes");
}
