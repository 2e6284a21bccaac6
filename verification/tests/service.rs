use cue_daemon::service::{
    activate_commands, activation_error, command_error, current_process_ownership_from_state,
    deactivate_commands, deactivation_warning, launchd_process_state,
    launchd_process_state_from_output, process_state_command, restart_service_command,
    service_file_content, service_file_path, start_service_command,
    systemd_process_state_from_output, CurrentProcessOwnership, ServiceCommand, ServiceManager,
    ServiceProcessState,
};

const SYSTEMD: ServiceManager = ServiceManager::Systemd;
const LAUNCHD: ServiceManager = ServiceManager::Launchd { uid: 501 };

#[test]
fn start_if_needed_command_is_non_destructive() {
    for manager in [SYSTEMD, LAUNCHD] {
        let command = start_service_command(manager).display();
        assert!(!command.contains(" restart "), "{command}");
        assert!(!command.contains(" -k "), "{command}");
    }
    let command = start_service_command(LAUNCHD).display();
    assert!(command.contains("launchctl kickstart"), "{command}");
    let command = start_service_command(SYSTEMD).display();
    assert!(command.contains("systemctl --user start cued"), "{command}");
}

#[test]
fn restart_command_replaces_a_running_service() {
    assert_eq!(
        restart_service_command(SYSTEMD).display(),
        "systemctl --user restart cued"
    );
    assert_eq!(
        restart_service_command(LAUNCHD).display(),
        "launchctl kickstart -k gui/501/com.cue-shell.cued"
    );
}

#[test]
fn current_process_ownership_requires_exact_manager_main_pid() {
    assert_eq!(
        current_process_ownership_from_state(ServiceProcessState::Active(7), 7),
        CurrentProcessOwnership::Managed
    );
    assert_eq!(
        current_process_ownership_from_state(ServiceProcessState::Active(8), 7),
        CurrentProcessOwnership::NotManaged
    );
    assert_eq!(
        current_process_ownership_from_state(ServiceProcessState::Inactive, 7),
        CurrentProcessOwnership::NotManaged
    );
    assert_eq!(
        current_process_ownership_from_state(ServiceProcessState::Unknown, 7),
        CurrentProcessOwnership::Unknown
    );
}

#[test]
fn systemd_state_parser_distinguishes_inactive_from_unknown_failures() {
    assert_eq!(
        systemd_process_state_from_output(true, b"42\n", b""),
        ServiceProcessState::Active(42)
    );
    assert_eq!(
        systemd_process_state_from_output(true, b"0\n", b""),
        ServiceProcessState::Inactive
    );
    for message in [
        "Unit cued.service not found.",
        "Unit cued.service is not loaded.",
        "No such unit: cued.service",
    ] {
        assert_eq!(
            systemd_process_state_from_output(false, b"", message.as_bytes()),
            ServiceProcessState::Inactive,
            "{message}"
        );
    }
    assert_eq!(
        systemd_process_state_from_output(false, b"", b"Failed to connect to bus: denied"),
        ServiceProcessState::Unknown
    );
    assert_eq!(
        systemd_process_state_from_output(true, b"not-a-pid", b""),
        ServiceProcessState::Unknown
    );
}

#[test]
fn systemd_output_need_not_be_utf8() {
    assert_eq!(
        systemd_process_state_from_output(false, b"", b"\xff\xfe Unit CUED not found \xff"),
        ServiceProcessState::Inactive
    );
    assert_eq!(
        systemd_process_state_from_output(true, b"\xff42", b""),
        ServiceProcessState::Unknown
    );
    assert_eq!(
        systemd_process_state_from_output(false, b"", b"Unit other.service not found."),
        ServiceProcessState::Unknown
    );
}

#[test]
fn launchd_state_is_read_from_its_report() {
    assert_eq!(
        launchd_process_state(true, "state = running\n\tpid = 77\n", ""),
        ServiceProcessState::Active(77)
    );
    assert_eq!(
        launchd_process_state(true, "state = waiting\n", ""),
        ServiceProcessState::Inactive
    );
    assert_eq!(
        launchd_process_state(false, "", "Could not find service \"com.cue-shell.cued\""),
        ServiceProcessState::Inactive
    );
    assert_eq!(
        launchd_process_state(false, "", "permission denied"),
        ServiceProcessState::Unknown
    );
    assert_eq!(
        launchd_process_state_from_output(true, b"\xff\n\tpid = 78\n", ""),
        ServiceProcessState::Active(78)
    );
}

#[test]
fn service_commands_name_the_service() {
    assert_eq!(
        process_state_command(SYSTEMD).display(),
        "systemctl --user show --property=MainPID --value cued"
    );
    assert_eq!(
        process_state_command(LAUNCHD).display(),
        "launchctl print gui/501/com.cue-shell.cued"
    );
    let lines = |commands: Vec<ServiceCommand>| -> Vec<String> {
        commands.iter().map(ServiceCommand::display).collect()
    };
    assert_eq!(
        lines(activate_commands(SYSTEMD, "/u")),
        vec![
            "systemctl --user daemon-reload",
            "systemctl --user enable --now cued"
        ]
    );
    assert!(lines(activate_commands(LAUNCHD, "/p.plist"))
        .iter()
        .any(|line| line.contains("/p.plist")));
    assert!(!deactivate_commands(SYSTEMD, "/u").is_empty());
    assert!(!deactivate_commands(LAUNCHD, "/p.plist").is_empty());
}

#[test]
fn failures_name_the_command() {
    let command = start_service_command(SYSTEMD);
    let message = command_error(&command, "exit status: 1");
    assert!(message.contains("systemctl --user start cued"), "{message}");
    assert!(message.contains("exit status: 1"), "{message}");
    assert_eq!(deactivation_warning(&vec![]), None);
    let warning = deactivation_warning(&vec!["a".to_string(), "b".to_string()]).unwrap();
    assert!(warning.ends_with("removing the service file anyway\na\nb"), "{warning}");
}

#[test]
fn service_file_stands_under_home() {
    let home = Some(b"/home/test".to_vec());
    assert_eq!(
        service_file_path(SYSTEMD, &home),
        Ok(b"/home/test/.config/systemd/user/cued.service".to_vec())
    );
    assert_eq!(
        service_file_path(LAUNCHD, &home),
        Ok(b"/home/test/Library/LaunchAgents/com.cue-shell.cued.plist".to_vec())
    );
    assert!(service_file_path(SYSTEMD, &None).is_err());
}

#[test]
fn service_file_keeps_the_restart_fence() {
    let unit = service_file_content(SYSTEMD, "/opt/cued", "/var/cued.log");
    assert!(unit.contains("ExecStart=/opt/cued start --fg --preserve-restart-fence\n"));
    assert!(unit.contains("Restart=on-failure\n"));
    let plist = service_file_content(LAUNCHD, "/opt/cued", "/var/cued.log");
    assert!(plist.contains("<string>/opt/cued</string>"));
    assert!(plist.contains("<string>--preserve-restart-fence</string>"));
    assert!(plist.contains("<string>/var/cued.log</string>"));
}

#[test]
fn failed_bootstrap_points_at_the_plist() {
    assert_eq!(
        activation_error(LAUNCHD, "/p.plist", "`launchctl bootstrap` failed"),
        "launchctl bootstrap failed — check the plist at /p.plist\n`launchctl bootstrap` failed"
    );
    assert_eq!(
        activation_error(SYSTEMD, "/cued.service", "`systemctl` failed"),
        "`systemctl` failed"
    );
}
