use std::path::PathBuf;
use vrc_tail::paths::{vrchat_log_dir_from_local_app_data, PathError};

fn log_dir(local: &PathBuf) -> PathBuf {
    PathBuf::from(vrchat_log_dir_from_local_app_data(local.to_str().unwrap()).unwrap())
}

#[test]
fn resolves_vrchat_under_local_low_sibling() {
    let local = PathBuf::from(r"C:\Users\test\AppData\Local");
    let expected = PathBuf::from(r"C:\Users\test\AppData\LocalLow\VRChat\VRChat");
    assert_eq!(log_dir(&local), expected);
    assert_ne!(log_dir(&local), local.join("Low").join("VRChat").join("VRChat"));
}

#[test]
fn trailing_separators_are_ignored() {
    assert_eq!(
        vrchat_log_dir_from_local_app_data(r"C:\Users\test\AppData\Local\").unwrap(),
        r"C:\Users\test\AppData\LocalLow\VRChat\VRChat"
    );
}

#[test]
fn paths_without_a_name_are_refused() {
    for path in ["", r"C:\", "C:", r"C:\Users\..", r"\\", r"\\server\share", r"\\.\COM1", "."] {
        assert_eq!(
            vrchat_log_dir_from_local_app_data(path),
            Err(PathError::NoFileName)
        );
    }
}

#[test]
fn relative_and_drive_relative_names() {
    assert_eq!(
        vrchat_log_dir_from_local_app_data("Local").unwrap(),
        r"LocalLow\VRChat\VRChat"
    );
    assert_eq!(
        vrchat_log_dir_from_local_app_data("D:Local").unwrap(),
        r"D:LocalLow\VRChat\VRChat"
    );
    assert_eq!(
        vrchat_log_dir_from_local_app_data("D:/Local").unwrap(),
        r"D:/LocalLow\VRChat\VRChat"
    );
}

#[test]
fn dot_components_are_ignored_and_separators_collapse() {
    assert_eq!(
        vrchat_log_dir_from_local_app_data(r"C:\a\.").unwrap(),
        r"C:\aLow\VRChat\VRChat"
    );
    assert_eq!(
        vrchat_log_dir_from_local_app_data(r"C:\a\\Local").unwrap(),
        r"C:\a\LocalLow\VRChat\VRChat"
    );
}

#[test]
fn unc_and_verbatim_prefixes() {
    assert_eq!(
        vrchat_log_dir_from_local_app_data(r"\\server\share\Local").unwrap(),
        r"\\server\share\LocalLow\VRChat\VRChat"
    );
    assert_eq!(
        vrchat_log_dir_from_local_app_data(r"\\?\C:\Users\.\Local").unwrap(),
        r"\\?\C:\Users\.\LocalLow\VRChat\VRChat"
    );
}
