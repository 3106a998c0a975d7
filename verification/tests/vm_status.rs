use utmvm::vm::VmStatus;

#[test]
fn status_words_ignore_case_and_space() {
    assert_eq!(VmStatus::from_str("  STARTED\n"), VmStatus::Started);
    assert_eq!(VmStatus::from_str("stopped"), VmStatus::Stopped);
    assert_eq!(VmStatus::from_str("Paused"), VmStatus::Paused);
    assert_eq!(VmStatus::from_str("starting"), VmStatus::Starting);
    assert_eq!(VmStatus::from_str("STOPPING"), VmStatus::Stopping);
}

#[test]
fn unknown_status_is_lowercased() {
    assert_eq!(VmStatus::from_str(" Suspended "), VmStatus::Unknown("suspended".to_string()));
    assert_eq!(VmStatus::from_str(""), VmStatus::Unknown(String::new()));
}

#[test]
fn from_lowercase_is_exact() {
    assert_eq!(VmStatus::from_lowercase("started"), VmStatus::Started);
    assert_eq!(VmStatus::from_lowercase("Started"), VmStatus::Unknown("Started".to_string()));
}

#[test]
fn same_as_compares_statuses() {
    assert!(VmStatus::Started.same_as(&VmStatus::Started));
    assert!(!VmStatus::Started.same_as(&VmStatus::Stopped));
    assert!(VmStatus::Unknown("a".into()).same_as(&VmStatus::Unknown("a".into())));
    assert!(!VmStatus::Unknown("a".into()).same_as(&VmStatus::Unknown("b".into())));
}

#[test]
fn reading_again_after_trim_and_lowercase_agrees() {
    for s in ["  STARTED\n", "Paused", " Suspended ", "stopping", ""] {
        let again = s.trim().to_lowercase();
        assert_eq!(VmStatus::from_str(s), VmStatus::from_str(&again));
    }
}
