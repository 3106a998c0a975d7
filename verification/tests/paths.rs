use std::path::{Path, PathBuf};
use utmvm::error::Error;
use utmvm::manager::{
    clone_precheck, contains_str, create_precheck, file_name_of, find_vm, ip_address_text,
    ip_parse_error, ip_poll, ip_timeout_error, iso_image_name, join_path, list_contains,
    status_poll, Poll,
};
use utmvm::{UtmManager, VmInfo, VmStatus};

#[test]
fn join_agrees_with_pathbuf() {
    for (a, b) in [("/x", "y"), ("/x/", "y"), ("", "y"), ("/x", "/abs"), ("x", ""), ("a/b", "c/d")] {
        assert_eq!(join_path(a, b), PathBuf::from(a).join(b).to_str().unwrap(), "{a} {b}");
    }
}

#[test]
fn file_name_agrees_with_path() {
    for p in ["/tmp/seed.iso", "seed.iso", "/", "", ".", "a/.", "a/..", "a//b//", "./", "..", "x/./"] {
        assert_eq!(
            file_name_of(p).as_deref(),
            Path::new(p).file_name().map(|f| f.to_str().unwrap()),
            "{p}"
        );
    }
}

#[test]
fn manager_paths() {
    let m = UtmManager::with_docs_dir("/docs");
    assert_eq!(m.bundle_path("vm"), "/docs/vm.utm");
    assert_eq!(m.config_path("vm"), "/docs/vm.utm/config.plist");
    assert_eq!(m.config_path_checked("vm", true).unwrap(), "/docs/vm.utm/config.plist");
    match m.config_path_checked("vm", false) {
        Err(Error::ConfigNotFound(n, p)) => {
            assert_eq!(n, "vm");
            assert_eq!(p, "/docs/vm.utm/config.plist");
        }
        other => panic!("{other:?}"),
    }
    match m.bundle_path_checked("vm", false) {
        Err(Error::ConfigNotFound(n, p)) => {
            assert_eq!(n, "vm");
            assert_eq!(p, "/docs/vm.utm");
        }
        other => panic!("{other:?}"),
    }
}

#[test]
fn default_docs_dir() {
    let m = UtmManager::new(Some("/Users/me"));
    assert_eq!(m.bundle_path("a"), "/Users/me/Library/Containers/com.utmapp.UTM/Data/Documents/a.utm");
    let m = UtmManager::new(None);
    assert_eq!(m.bundle_path("a"), "/Users/unknown/Library/Containers/com.utmapp.UTM/Data/Documents/a.utm");
}

#[test]
fn iso_names() {
    assert_eq!(iso_image_name("vm", "/tmp/seed.iso").unwrap(), "seed.iso");
    match iso_image_name("vm", "/tmp/..") {
        Err(Error::Other(m)) => assert_eq!(m, "invalid ISO path for VM 'vm': /tmp/.."),
        other => panic!("{other:?}"),
    }
}

fn info(name: &str, uuid: &str) -> VmInfo {
    VmInfo { name: name.to_string(), uuid: uuid.to_string(), status: VmStatus::Stopped }
}

#[test]
fn finding_vms() {
    let vms = vec![info("a", "1"), info("b", "2"), info("b", "3")];
    assert!(list_contains(&vms, "b"));
    assert!(!list_contains(&vms, "c"));
    assert_eq!(find_vm(vms.clone(), "b").unwrap().uuid, "2");
    match find_vm(vms, "c") {
        Err(Error::VmNotFound(n)) => assert_eq!(n, "c"),
        other => panic!("{other:?}"),
    }
}

#[test]
fn prechecks() {
    assert!(create_precheck("a", false).is_ok());
    assert!(matches!(create_precheck("a", true), Err(Error::VmAlreadyExists(n)) if n == "a"));
    assert!(matches!(clone_precheck("s", false, "n", true), Err(Error::VmNotFound(n)) if n == "s"));
    assert!(matches!(clone_precheck("s", true, "n", true), Err(Error::VmAlreadyExists(n)) if n == "n"));
    assert!(clone_precheck("s", true, "n", false).is_ok());
}

#[test]
fn ip_address_texts() {
    assert_eq!(ip_address_text("vm", "192.168.1.5\nfe80::1", "", true).unwrap(), "192.168.1.5");
    assert!(matches!(ip_address_text("vm", "", "", true), Err(Error::GuestAgentUnavailable(n)) if n == "vm"));
    assert!(matches!(
        ip_address_text("vm", "x", "QEMU Guest Agent is not running", false),
        Err(Error::GuestAgentUnavailable(_))
    ));
    match ip_address_text("vm", "out", "boom", false) {
        Err(Error::Utmctl(m)) => assert_eq!(m, "ip-address failed: boom"),
        other => panic!("{other:?}"),
    }
    match ip_address_text("vm", "out", "", false) {
        Err(Error::Utmctl(m)) => assert_eq!(m, "ip-address failed: out"),
        other => panic!("{other:?}"),
    }
    assert!(matches!(ip_parse_error("x"), Error::Other(m) if m == "could not parse IP 'x'"));
    assert!(matches!(ip_timeout_error("vm"), Error::Timeout(m) if m == "timed out waiting for IP address of 'vm'"));
}

#[test]
fn containment() {
    assert!(contains_str("a guest agent b", "guest agent"));
    assert!(contains_str("abc", ""));
    assert!(!contains_str("ab", "abc"));
    assert!(!contains_str("guest agen", "guest agent"));
}

#[test]
fn polls() {
    assert_eq!(status_poll(&VmStatus::Started, &VmStatus::Started, true), Poll::Done);
    assert_eq!(status_poll(&VmStatus::Stopped, &VmStatus::Started, true), Poll::TimedOut);
    assert_eq!(status_poll(&VmStatus::Stopped, &VmStatus::Started, false), Poll::Retry);
    assert_eq!(ip_poll(true, false), Poll::Done);
    assert_eq!(ip_poll(false, true), Poll::Retry);
    assert_eq!(ip_poll(false, false), Poll::TimedOut);
}
