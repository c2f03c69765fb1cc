use prune::error::PruneError;
use prune::system::protection::{classify, Candidate, Protection};
use prune::system::{cannot_ask, no_such_process, stop_check, stop_outcome};

fn candidate<'a>(pid: u32, name: &'a str, user: Option<&'a str>) -> Candidate<'a> {
    Candidate {
        pid,
        name,
        user,
        current_user: Some("dev"),
        self_pid: 4242,
    }
}

#[test]
fn allows_an_ordinary_process_of_this_user() {
    assert_eq!(classify(candidate(900, "node", Some("dev"))), None);
    assert_eq!(classify(candidate(901, "Google Chrome Helper", Some("dev"))), None);
}

#[test]
fn refuses_the_kernel_and_init() {
    assert_eq!(
        classify(candidate(0, "kernel_task", Some("dev"))),
        Some(Protection::SystemCritical)
    );
    assert_eq!(
        classify(candidate(1, "anything", Some("dev"))),
        Some(Protection::SystemCritical)
    );
}

#[test]
fn refuses_processes_that_hold_the_session_together() {
    for name in [
        "WindowServer",
        "loginwindow",
        "launchd",
        "Finder",
        "lsass.exe",
        "csrss.exe",
        "explorer.exe",
        "systemd",
    ] {
        assert_eq!(
            classify(candidate(500, name, Some("dev"))),
            Some(Protection::SystemCritical),
            "{name} must be protected"
        );
    }
}

#[test]
fn matching_ignores_case_and_surrounding_space() {
    assert_eq!(
        classify(candidate(500, "  WINDOWSERVER  ", Some("dev"))),
        Some(Protection::SystemCritical)
    );
}

#[test]
fn refuses_other_users_and_unknown_owners() {
    assert_eq!(
        classify(candidate(900, "postgres", Some("root"))),
        Some(Protection::OtherUser)
    );
    assert_eq!(classify(candidate(900, "mystery", None)), Some(Protection::OtherUser));
}

#[test]
fn refuses_prune_itself() {
    assert_eq!(
        classify(candidate(4242, "prune", Some("dev"))),
        Some(Protection::Ourselves)
    );
}

#[test]
fn every_reason_explains_itself() {
    for reason in [
        Protection::SystemCritical,
        Protection::OtherUser,
        Protection::Ourselves,
    ] {
        assert!(!reason.message().is_empty());
    }
}

#[test]
fn a_refused_stop_names_the_process_and_the_reason() {
    match stop_check(candidate(4242, "prune", Some("dev"))) {
        Err(PruneError::Other(m)) => assert_eq!(m, "prune cannot be stopped: this is Prune"),
        other => panic!("unexpected {other:?}"),
    }
    assert!(stop_check(candidate(900, "node", Some("dev"))).is_ok());
}

#[test]
fn stop_errors_say_what_happened() {
    match no_such_process(31337) {
        PruneError::Other(m) => assert_eq!(m, "no process with id 31337"),
        other => panic!("unexpected {other:?}"),
    }
    match stop_outcome("node", false) {
        Err(PruneError::Other(m)) => assert_eq!(m, "the system refused to stop node"),
        other => panic!("unexpected {other:?}"),
    }
    assert!(stop_outcome("node", true).is_ok());
    match cannot_ask("node") {
        PruneError::Other(m) => assert!(m.starts_with("node cannot be asked to quit")),
        other => panic!("unexpected {other:?}"),
    }
}
