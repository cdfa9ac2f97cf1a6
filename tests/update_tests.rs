use sniplias::update::{
    detect_install_method, get_current_version, get_update_command, release_update_info,
    version_from_tag, InstallMethod,
};
use sniplias::utils::update::{install_method_from, text_less, InstallMethod as Method, UpdateInfo};

#[test]
fn test_current_version() {
    let version = get_current_version();
    assert!(!version.is_empty());
}

#[test]
fn test_install_method_detection() {
    let method = detect_install_method(Some("/home/u/.cargo/bin/sniplias"), false, false, false);
    assert!(matches!(
        method,
        InstallMethod::Manual | InstallMethod::Cargo | InstallMethod::Pacman | InstallMethod::Unknown
    ));
}

#[test]
fn install_method_cases() {
    assert_eq!(detect_install_method(Some("/usr/bin/sniplias"), true, false, false), InstallMethod::Pacman);
    assert_eq!(detect_install_method(Some("/usr/local/bin/sniplias"), false, false, false), InstallMethod::Manual);
    assert_eq!(detect_install_method(Some("/home/u/.local/bin/sniplias"), false, false, false), InstallMethod::Manual);
    assert_eq!(detect_install_method(Some("/home/u/.cargo/bin/sniplias"), false, true, false), InstallMethod::Cargo);
    assert_eq!(detect_install_method(Some("/w/target/release/sniplias"), false, true, true), InstallMethod::Unknown);
    assert_eq!(detect_install_method(Some("/w/target/release/sniplias"), false, false, false), InstallMethod::Cargo);
    assert_eq!(detect_install_method(Some("/w/target/release/deps/x"), false, false, false), InstallMethod::Unknown);
    assert_eq!(detect_install_method(None, false, false, true), InstallMethod::Cargo);
    assert_eq!(detect_install_method(None, false, true, true), InstallMethod::Unknown);
}

#[test]
fn update_commands() {
    assert_eq!(get_update_command(InstallMethod::Cargo), Some("cargo install sniplias"));
    assert!(get_update_command(InstallMethod::Manual).is_some());
    assert!(get_update_command(InstallMethod::Pacman).is_some());
    assert_eq!(get_update_command(InstallMethod::Unknown), None);
}

#[test]
fn tags_lose_leading_v() {
    assert_eq!(version_from_tag("v1.2.3"), "1.2.3");
    assert_eq!(version_from_tag("vv2"), "2");
    assert_eq!(version_from_tag("1.0v"), "1.0v");
    let same = release_update_info(&format!("v{}", get_current_version()), InstallMethod::Manual);
    assert!(!same.has_update);
    let newer = release_update_info("v99.0.0", InstallMethod::Cargo);
    assert!(newer.has_update);
    assert_eq!(newer.latest_version, "99.0.0");
    assert_eq!(newer.current_version, get_current_version());
}

#[test]
fn text_order() {
    assert!(text_less("0.1.0", "0.2.0"));
    assert!(!text_less("0.2.0", "0.1.0"));
    assert!(text_less("0.1", "0.1.0"));
    assert!(!text_less("a", "a"));
}

#[test]
fn remote_version_check() {
    let mut info = UpdateInfo::new(Method::Cargo);
    assert_eq!(info.version_display(), format!("{} (latest)", get_current_version()));
    info.check_update(None);
    assert!(!info.update_available);
    info.check_update(Some("9.9.9".to_string()));
    assert!(info.update_available);
    assert_eq!(info.version_display(), format!("{} -> 9.9.9", get_current_version()));
    info.check_update(Some("0.0.1".to_string()));
    assert!(!info.update_available);
}

#[test]
fn system_report_to_method() {
    assert_eq!(install_method_from(true, true, true), Method::Yay);
    assert_eq!(install_method_from(false, true, true), Method::Cargo);
    assert_eq!(install_method_from(false, false, true), Method::Manual);
    assert_eq!(install_method_from(false, false, false), Method::Unknown);
}
