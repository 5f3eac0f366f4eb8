use compose_scaler::commands::{
    compose_command, down_command, list_outcome, ps_command, remote_command, start_outcome,
    stop_outcome, up_command, ExecError, ProjectError, StartOutcome,
};

#[test]
fn command_lines() {
    assert_eq!(compose_command(&None), "docker compose");
    assert_eq!(compose_command(&Some("bin/docker-compose".to_string())), "bin/docker-compose");
    assert_eq!(up_command("docker compose"), "docker compose up -d");
    assert_eq!(down_command("docker compose"), "docker compose down");
    assert_eq!(ps_command("bin/docker-compose"), "bin/docker-compose ps -q");
    assert_eq!(
        remote_command("/srv/projects", "gitea", "docker compose up -d"),
        "cd /srv/projects/gitea && docker compose up -d"
    );
}

#[test]
fn exec_error_messages() {
    assert_eq!(ExecError::ChannelOpen.message(), "Could not open session channel");
    assert_eq!(ExecError::Exec.message(), "Could not execute command");
    assert_eq!(ExecError::ReadOutput.message(), "could not read command output to string");
}

#[test]
fn project_error_messages() {
    let e = ProjectError::StartError("boom".to_string());
    assert_eq!(e.message(), "Could not start compose project: boom");
    let e = ProjectError::StopError("boom".to_string());
    assert_eq!(e.message(), "Could not stop compose project: boom");
    let e = ProjectError::ListError("boom".to_string());
    assert_eq!(e.message(), "Could not list project containers: boom");
    let e = ProjectError::InspectError("boom".to_string());
    assert_eq!(e.message(), "Could not inspect container: boom");
}

#[test]
fn start_failures() {
    assert_eq!(start_outcome(&Ok(String::new())).unwrap(), StartOutcome::Started);
    assert_eq!(start_outcome(&Err(ExecError::ChannelOpen)).unwrap(), StartOutcome::Reconnect);
    match start_outcome(&Err(ExecError::Exec)) {
        Err(ProjectError::StartError(m)) => assert_eq!(m, "Could not execute command"),
        other => panic!("unexpected {:?}", other),
    }
}

#[test]
fn stop_and_list_failures() {
    assert!(stop_outcome(&Ok("done".to_string())).is_ok());
    match stop_outcome(&Err(ExecError::ChannelOpen)) {
        Err(ProjectError::StopError(m)) => assert_eq!(m, "Could not open session channel"),
        other => panic!("unexpected {:?}", other),
    }
    assert_eq!(list_outcome(&Ok("a\nb\n".to_string())).unwrap(), vec!["a".to_string(), "b".to_string()]);
    match list_outcome(&Err(ExecError::ReadOutput)) {
        Err(ProjectError::ListError(m)) => assert_eq!(m, "could not read command output to string"),
        other => panic!("unexpected {:?}", other),
    }
}
