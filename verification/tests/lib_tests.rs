use crabcamera::types::Platform;
use crabcamera::{current_platform, current_platform_string, get_info, DESCRIPTION, NAME, VERSION};

// The machine that runs these tests is a Linux machine; the library takes the operating
// system's name as `std::env::consts::OS` gives it.
const THIS_OS: &str = "linux";

#[test]
fn test_platform_detection() {
    let platform = current_platform(THIS_OS);
    assert_ne!(platform, Platform::Unknown);
}

#[test]
fn test_platform_string() {
    let platform_str = current_platform_string(THIS_OS);
    assert!(!platform_str.is_empty());
}

#[test]
fn test_crate_info() {
    let info = get_info(THIS_OS);
    assert_eq!(info.name, "crabcamera");
    assert!(!info.version.is_empty());
    assert!(!info.description.is_empty());
}

#[test]
fn platform_names_of_each_operating_system() {
    assert_eq!(current_platform("windows"), Platform::Windows);
    assert_eq!(current_platform("macos"), Platform::MacOS);
    assert_eq!(current_platform("linux"), Platform::Linux);
    assert_eq!(current_platform("freebsd"), Platform::Unknown);
    assert_eq!(current_platform(""), Platform::Unknown);
    assert_eq!(current_platform_string("windows"), "windows");
    assert_eq!(current_platform_string("macos"), "macos");
    assert_eq!(current_platform_string("linux"), "linux");
    assert_eq!(current_platform_string("android"), "unknown");
}

#[test]
fn platform_name_round_trips() {
    for p in [Platform::Windows, Platform::MacOS, Platform::Linux, Platform::Unknown] {
        assert_eq!(Platform::from_os_name(p.as_str()), p);
        assert!(!p.as_str().is_empty());
    }
}

#[test]
fn crate_info_is_the_package_metadata() {
    let info = get_info("macos");
    assert_eq!(info.name, NAME);
    assert_eq!(info.version, VERSION);
    assert_eq!(info.version, "0.6.0");
    assert_eq!(info.description, DESCRIPTION);
    assert_eq!(info.platform, Platform::MacOS);
}
