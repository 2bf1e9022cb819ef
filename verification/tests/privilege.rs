use media_provision::privilege::{check_and_request_privileges, script_for, Elevation, Platform, ROOT};

fn relaunch(e: Elevation) -> (String, Vec<String>) {
    match e {
        Elevation::Relaunch { program, arguments } => (program, arguments),
        other => panic!("no relaunch: {:?}", other),
    }
}

#[test]
fn the_administrator_proceeds() {
    assert_eq!(ROOT, 0);
    for platform in [Platform::Linux, Platform::MacOs, Platform::Windows, Platform::Other] {
        assert!(matches!(
            check_and_request_privileges(platform, 0, Some("/usr/bin/installer")),
            Elevation::Proceed
        ));
        assert!(matches!(check_and_request_privileges(platform, 0, None), Elevation::Proceed));
    }
}

#[test]
fn nothing_is_asked_for_on_windows() {
    assert!(matches!(
        check_and_request_privileges(Platform::Windows, 1000, Some("C:\\installer.exe")),
        Elevation::Proceed
    ));
    assert!(matches!(check_and_request_privileges(Platform::Windows, 1000, None), Elevation::Proceed));
}

#[test]
fn linux_relaunches_through_pkexec() {
    let (program, arguments) =
        relaunch(check_and_request_privileges(Platform::Linux, 1000, Some("/opt/my app/installer")));
    assert_eq!(program, "pkexec");
    assert_eq!(arguments, vec!["/opt/my app/installer"]);
}

#[test]
fn macos_relaunches_through_a_script() {
    let (program, arguments) = relaunch(check_and_request_privileges(
        Platform::MacOs,
        501,
        Some("/Applications/Installer.app/Contents/MacOS/installer"),
    ));
    assert_eq!(program, "osascript");
    assert_eq!(
        arguments,
        vec![
            "-e",
            "do shell script \"/Applications/Installer.app/Contents/MacOS/installer\" with administrator privileges",
        ]
    );
}

#[test]
fn quotes_in_the_path_are_escaped() {
    assert_eq!(
        script_for("/tmp/a \"b\"/run"),
        "do shell script \"/tmp/a \\\"b\\\"/run\" with administrator privileges"
    );
    assert_eq!(script_for(""), "do shell script \"\" with administrator privileges");
}

#[test]
fn without_a_path_there_is_nothing_to_relaunch() {
    for platform in [Platform::Linux, Platform::MacOs, Platform::Other] {
        assert!(matches!(check_and_request_privileges(platform, 1000, None), Elevation::NoExecutable));
    }
}

#[test]
fn other_platforms_are_unsupported() {
    assert!(matches!(
        check_and_request_privileges(Platform::Other, 1000, Some("/bin/installer")),
        Elevation::Unsupported
    ));
}
