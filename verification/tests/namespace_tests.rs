use docker_intrude::namespace::{
    after_wait, capability_sets_to_clear, check_namespace_owner, check_pid_unchanged, clear_capabilities, exit_status,
    namespace_path, report_clearing, resolv_conf_contents, resolv_conf_temp_path, CapabilitySet, WaitAction, WaitEvent,
};

#[test]
fn namespace_file_path() {
    assert_eq!(namespace_path(1234), "/proc/1234/ns/net");
    assert_eq!(namespace_path(-1), "/proc/-1/ns/net");
}

#[test]
fn namespace_owner_check() {
    assert!(check_namespace_owner(1000, 1000).is_ok());
    assert_eq!(
        check_namespace_owner(0, 1000).err().unwrap(),
        "Target namespace is owned by UID 0, but the Docker socket is owned by UID 1000. Aborting due to potential privilege escalation."
    );
}

#[test]
fn pid_stability_check() {
    assert!(check_pid_unchanged(77, 77).is_ok());
    assert_eq!(
        check_pid_unchanged(77, 78).err().unwrap(),
        "Container state changed while attaching to namespace (PID changed from 77 to 78). The container may have restarted or terminated."
    );
}

#[test]
fn capability_sets() {
    assert!(capability_sets_to_clear(false) == vec![CapabilitySet::Effective, CapabilitySet::Permitted, CapabilitySet::Inheritable, CapabilitySet::Ambient]);
    assert!(capability_sets_to_clear(true) == vec![CapabilitySet::Bounding, CapabilitySet::Effective, CapabilitySet::Permitted, CapabilitySet::Inheritable, CapabilitySet::Ambient]);
}

#[test]
fn clearing_capabilities_reports_the_set() {
    let (result, attempts) = clear_capabilities(false);
    let sets = capability_sets_to_clear(false);
    assert!(!attempts.is_empty() && attempts.len() <= sets.len());
    for (i, attempt) in attempts.iter().enumerate() {
        assert!(attempt.set() == sets[i]);
        if i + 1 < attempts.len() {
            assert!(attempt.outcome().is_ok());
        }
    }
    match result {
        Ok(()) => assert_eq!(attempts.len(), sets.len()),
        Err(m) => {
            assert!(m.starts_with("Failed to drop ") && m.contains("capabilities: caps error: "), "{m}");
            assert!(attempts.last().unwrap().outcome().is_err());
        }
    }
}

#[test]
fn dns_configuration() {
    assert_eq!(resolv_conf_contents(), "nameserver 127.0.0.11\noptions ndots:0\n");
    assert_eq!(resolv_conf_temp_path(4321, 987654321), "/dev/shm/docker-intrude-resolv-4321-987654321");
}

#[test]
fn wait_decisions() {
    assert!(matches!(after_wait(WaitEvent::Exited(3), false), WaitAction::Finish(Ok(3))));
    assert!(matches!(after_wait(WaitEvent::Interrupted, false), WaitAction::Wait));
    match after_wait(WaitEvent::Interrupted, true) {
        WaitAction::Terminate(m) => assert_eq!(m, "Process received SIGTERM, shutting down"),
        _ => panic!("expected termination"),
    }
    match after_wait(WaitEvent::Signaled("SIGKILL".to_string()), false) {
        WaitAction::Finish(Err(m)) => assert_eq!(m, "Child process terminated by signal: SIGKILL"),
        _ => panic!("expected a failure"),
    }
    match after_wait(WaitEvent::Failed("ECHILD: No child processes".to_string()), true) {
        WaitAction::Finish(Err(m)) => assert_eq!(m, "Failed to harvest child process exit status: ECHILD: No child processes"),
        _ => panic!("expected a failure"),
    }
    match after_wait(WaitEvent::Other, false) {
        WaitAction::Finish(Err(m)) => assert_eq!(m, "Unexpected waitpid status"),
        _ => panic!("expected a failure"),
    }
}

#[test]
fn exit_statuses() {
    assert_eq!(exit_status(&Ok(0)), 0);
    assert_eq!(exit_status(&Ok(7)), 7);
    assert_eq!(exit_status(&Err("x".to_string())), 1);
}

#[test]
fn clearing_reports() {
    assert!(report_clearing(CapabilitySet::Ambient, &Ok(())).is_ok());
    assert_eq!(
        report_clearing(CapabilitySet::Bounding, &Err("caps error: EPERM".to_string())).err().unwrap(),
        "Failed to drop bounding capabilities: caps error: EPERM"
    );
    assert_eq!(
        report_clearing(CapabilitySet::Effective, &Err("x".to_string())).err().unwrap(),
        "Failed to drop effective capabilities: x"
    );
}
