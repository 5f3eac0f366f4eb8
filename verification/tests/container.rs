use compose_scaler::container::{
    classify_container, container_ids, needs_restart, not_ready_instance_state,
    ready_instance_state, unrecoverable_instance_state, ContainerRunState, ContainerState,
    ContainerStateStatus, ContainerStatus, Health, HealthProbe, HealthState,
};

fn state(status: ContainerRunState) -> ContainerState {
    ContainerState { status, health: None, exit_code: None }
}

fn with_health(status: HealthState, log: Option<Vec<HealthProbe>>) -> ContainerState {
    ContainerState {
        status: ContainerRunState::Running,
        health: Some(Health { status: Some(status), log }),
        exit_code: None,
    }
}

fn status(name: &str, running: bool) -> ContainerStatus {
    ContainerStatus {
        name: name.to_string(),
        running,
        current_replicas: if running { 1 } else { 0 },
        desired_replicas: 1,
        status: if running { ContainerStateStatus::Ready } else { ContainerStateStatus::NotReady },
        error: String::new(),
    }
}

#[test]
fn instance_state_transitions() {
    let mut c = ContainerStatus::default();
    c.name = "web".to_string();
    c.error = "old".to_string();
    ready_instance_state(&mut c);
    assert!(c.running);
    assert_eq!(c.current_replicas, 1);
    assert_eq!(c.status, ContainerStateStatus::Ready);
    not_ready_instance_state(&mut c);
    assert!(!c.running);
    assert_eq!(c.current_replicas, 0);
    assert_eq!(c.status, ContainerStateStatus::NotReady);
    ready_instance_state(&mut c);
    unrecoverable_instance_state(&mut c);
    assert!(!c.running);
    assert_eq!(c.current_replicas, 0);
    assert_eq!(c.status, ContainerStateStatus::Unrecoverable);
    assert_eq!(c.name, "web");
    assert_eq!(c.error, "old");
}

#[test]
fn default_status_is_not_ready() {
    assert_eq!(ContainerStateStatus::default(), ContainerStateStatus::NotReady);
    let c = ContainerStatus::default();
    assert_eq!(c.name, "");
    assert!(!c.running);
    assert_eq!(c.desired_replicas, 0);
}

#[test]
fn classify_waiting_states() {
    for s in [
        ContainerRunState::Created,
        ContainerRunState::Paused,
        ContainerRunState::Restarting,
        ContainerRunState::Removing,
    ] {
        let c = classify_container("abc".to_string(), &state(s));
        assert_eq!(c.name, "abc");
        assert_eq!(c.status, ContainerStateStatus::NotReady);
        assert!(!c.running);
        assert_eq!(c.current_replicas, 0);
        assert_eq!(c.desired_replicas, 1);
        assert_eq!(c.error, "");
    }
}

#[test]
fn classify_running_without_health_check() {
    let c = classify_container("abc".to_string(), &state(ContainerRunState::Running));
    assert_eq!(c.status, ContainerStateStatus::Ready);
    assert!(c.running);
    assert_eq!(c.current_replicas, 1);
    assert_eq!(c.desired_replicas, 1);
    assert_eq!(c.error, "");
}

#[test]
fn classify_health_states() {
    let c = classify_container("a".to_string(), &with_health(HealthState::Healthy, None));
    assert_eq!(c.status, ContainerStateStatus::Ready);
    for h in [HealthState::Empty, HealthState::NoCheck, HealthState::Starting] {
        let c = classify_container("a".to_string(), &with_health(h, None));
        assert_eq!(c.status, ContainerStateStatus::NotReady);
        assert_eq!(c.error, "");
    }
}

#[test]
fn classify_unhealthy_messages() {
    let c = classify_container("a".to_string(), &with_health(HealthState::Unhealthy, None));
    assert_eq!(c.status, ContainerStateStatus::Unrecoverable);
    assert!(!c.running);
    assert_eq!(c.error, "container is unhealthy: no log available");

    let c = classify_container("a".to_string(), &with_health(HealthState::Unhealthy, Some(vec![])));
    assert_eq!(c.error, "container is unhealthy: no log available");

    let log = vec![
        HealthProbe { output: Some("curl: (7) refused".to_string()), exit_code: Some(7) },
        HealthProbe { output: Some("later".to_string()), exit_code: Some(1) },
    ];
    let c = classify_container("a".to_string(), &with_health(HealthState::Unhealthy, Some(log)));
    assert_eq!(c.error, "container is unhealthy: curl: (7) refused (7)");

    let log = vec![HealthProbe { output: None, exit_code: None }];
    let c = classify_container("a".to_string(), &with_health(HealthState::Unhealthy, Some(log)));
    assert_eq!(c.error, "container is unhealthy:  (0)");

    let log = vec![HealthProbe { output: Some("x".to_string()), exit_code: Some(-12) }];
    let c = classify_container("a".to_string(), &with_health(HealthState::Unhealthy, Some(log)));
    assert_eq!(c.error, "container is unhealthy: x (-12)");
}

#[test]
fn classify_exited_and_dead() {
    let mut s = state(ContainerRunState::Exited);
    let c = classify_container("a".to_string(), &s);
    assert_eq!(c.status, ContainerStateStatus::NotReady);
    assert_eq!(c.error, "");

    s.exit_code = Some(0);
    let c = classify_container("a".to_string(), &s);
    assert_eq!(c.status, ContainerStateStatus::NotReady);

    s.exit_code = Some(137);
    let c = classify_container("a".to_string(), &s);
    assert_eq!(c.status, ContainerStateStatus::Unrecoverable);
    assert_eq!(c.error, "container exited with code \"137\"");

    s.exit_code = Some(i64::MIN);
    let c = classify_container("a".to_string(), &s);
    assert_eq!(c.error, format!("container exited with code \"{}\"", i64::MIN));

    let c = classify_container("a".to_string(), &state(ContainerRunState::Dead));
    assert_eq!(c.status, ContainerStateStatus::Unrecoverable);
    assert!(!c.running);
    assert_eq!(c.error, "container in dead state");
}

#[test]
fn health_check_state_only_read_when_running() {
    let s = ContainerState {
        status: ContainerRunState::Exited,
        health: Some(Health { status: None, log: None }),
        exit_code: Some(2),
    };
    let c = classify_container("a".to_string(), &s);
    assert_eq!(c.error, "container exited with code \"2\"");
}

#[test]
fn ids_from_ps_output() {
    assert_eq!(
        container_ids("abc123\n  def456 \n\n\tghi789\r\n"),
        vec!["abc123".to_string(), "def456".to_string(), "ghi789".to_string()]
    );
    assert_eq!(container_ids(""), Vec::<String>::new());
    assert_eq!(container_ids("\n \n"), Vec::<String>::new());
    assert_eq!(container_ids("only"), vec!["only".to_string()]);
    assert_eq!(container_ids("\u{a0}x y\u{3000}\n"), vec!["x y".to_string()]);
}

#[test]
fn restart_decision() {
    assert!(needs_restart(&vec![]));
    assert!(!needs_restart(&vec![status("a", true), status("b", true)]));
    assert!(needs_restart(&vec![status("a", true), status("b", false)]));
}
