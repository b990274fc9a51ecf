use local_polkadot::error::{Error, ErrorKind};

#[test]
fn only_a_failed_kill_is_not_fatal() {
    for kind in [
        ErrorKind::Configuration,
        ErrorKind::ConfirmationDeclined,
        ErrorKind::Filesystem,
        ErrorKind::Network,
        ErrorKind::Archive,
        ErrorKind::Spawn,
    ] {
        assert!(kind.is_fatal());
    }
    assert!(!ErrorKind::Termination.is_fatal());
}

#[test]
fn kinds_have_labels() {
    assert_eq!(ErrorKind::Configuration.label(), "configuration error");
    assert_eq!(ErrorKind::ConfirmationDeclined.label(), "confirmation declined");
    assert_eq!(ErrorKind::Filesystem.label(), "filesystem error");
    assert_eq!(ErrorKind::Network.label(), "network error");
    assert_eq!(ErrorKind::Archive.label(), "archive error");
    assert_eq!(ErrorKind::Spawn.label(), "spawn error");
    assert_eq!(ErrorKind::Termination.label(), "termination error");
}

#[test]
fn message_names_resource_and_cause() {
    let e = Error::new(ErrorKind::Termination, "polkadot", "no such process");
    assert_eq!(e.kind, ErrorKind::Termination);
    assert_eq!(e.resource, "polkadot");
    assert_eq!(e.cause, "no such process");
    assert_eq!(e.message(), "termination error: polkadot: no such process");
}
