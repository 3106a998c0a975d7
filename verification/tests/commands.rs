use utmvm::applescript::{
    failure_detail_text, launch_outcome, osascript_outcome, qemu_img_outcome, qemu_img_size_arg,
    spawn_failure, utmctl_outcome,
};
use utmvm::error::Error;

#[test]
fn utmctl_success_is_trimmed_output() {
    assert_eq!(utmctl_outcome(&["list"], true, "  a\nb \n", "x").unwrap(), "a\nb");
}

#[test]
fn utmctl_failure_names_command() {
    match utmctl_outcome(&["status", "my vm"], false, " out ", " err ") {
        Err(Error::Utmctl(m)) => assert_eq!(m, "utmctl status my vm failed: err"),
        other => panic!("{other:?}"),
    }
    match utmctl_outcome(&[], false, " out ", "") {
        Err(Error::Utmctl(m)) => assert_eq!(m, "utmctl  failed: out"),
        other => panic!("{other:?}"),
    }
    assert_eq!(failure_detail_text("o", " \n"), "o");
}

#[test]
fn osascript_outcomes() {
    assert_eq!(osascript_outcome(true, " done\n", "").unwrap(), "done");
    match osascript_outcome(false, "x", " -1700 \n") {
        Err(Error::AppleScript(m)) => assert_eq!(m, "-1700"),
        other => panic!("{other:?}"),
    }
}

#[test]
fn qemu_img_and_launch() {
    assert_eq!(qemu_img_size_arg(20), "20G");
    assert!(qemu_img_outcome(true, "").is_ok());
    match qemu_img_outcome(false, " no space ") {
        Err(Error::Other(m)) => assert_eq!(m, "qemu-img create failed: no space"),
        other => panic!("{other:?}"),
    }
    assert!(launch_outcome(true, "x").is_ok());
    match launch_outcome(false, " nope ") {
        Err(Error::Other(m)) => assert_eq!(m, "failed to launch UTM: nope"),
        other => panic!("{other:?}"),
    }
}

#[test]
fn spawn_failures() {
    let e = std::io::Error::new(std::io::ErrorKind::NotFound, "x");
    match spawn_failure("utmctl", e, true) {
        Error::BinaryNotFound(p) => assert_eq!(p, "utmctl"),
        other => panic!("{other:?}"),
    }
    let e = std::io::Error::new(std::io::ErrorKind::PermissionDenied, "x");
    match spawn_failure("utmctl", e, false) {
        Error::Io(e) => assert_eq!(e.kind(), std::io::ErrorKind::PermissionDenied),
        other => panic!("{other:?}"),
    }
}
