use compose_scaler::config;
use compose_scaler::sessions::{
    retry_start, Config, ContainerStateStatus, ContainerStatus, MonitorStep, ProjectManager,
    Status,
};

fn project(name: &str, session_ms: u64, custom: Option<&str>) -> Config {
    Config {
        name: name.to_string(),
        display_name: format!("The {}", name),
        session_duration: session_ms,
        theme: "ghost".to_string(),
        refresh_frequency: 5000,
        custom_command: custom.map(|c| c.to_string()),
    }
}

fn host() -> config::Config {
    config::Config {
        ssh_host: "host:22".to_string(),
        ssh_username: "me".to_string(),
        projects_dir: "/srv/compose".to_string(),
        public_key: "/k.pub".to_string(),
        private_key: "/k".to_string(),
        initial_projects: vec!["gitea".to_string()],
    }
}

fn running(name: &str) -> ContainerStatus {
    ContainerStatus {
        name: name.to_string(),
        running: true,
        current_replicas: 1,
        desired_replicas: 1,
        status: ContainerStateStatus::Ready,
        error: String::new(),
    }
}

#[test]
fn waiting_page_context() {
    let c = project("dockge", 300000, None);
    let mut ctx = tera::Context::new();
    c.insert_ctx(&mut ctx);
    assert_eq!(ctx.get("display_name"), Some(&tera::Value::from("The dockge")));
    assert_eq!(ctx.get("session_duration"), Some(&tera::Value::from("5m")));
    assert_eq!(ctx.get("refresh_frequency"), Some(&tera::Value::from(5u64)));
    assert_eq!(c.theme_template(), "ghost.html");
}

#[test]
fn waiting_page_context_keeps_other_values() {
    let c = project("dockge", 30000, None);
    let mut ctx = tera::Context::new();
    ctx.insert("instance_states", &vec![1, 2]);
    ctx.insert("display_name", &true);
    c.insert_ctx(&mut ctx);
    assert_eq!(ctx.get("instance_states"), Some(&tera::Value::from(vec![1, 2])));
    assert_eq!(ctx.get("display_name"), Some(&tera::Value::from("The dockge")));
    assert_eq!(ctx.get("session_duration"), Some(&tera::Value::from("30s")));
    assert_eq!(ctx.get("refresh_frequency"), Some(&tera::Value::from(5u64)));
}

#[test]
fn startup_stops_in_order() {
    let mut h = host();
    h.initial_projects = vec!["gitea".to_string(), "dockge".to_string()];
    let m = ProjectManager::new(h);
    assert_eq!(
        m.startup_stop_lines(),
        vec![
            "cd /srv/compose/gitea && docker compose down".to_string(),
            "cd /srv/compose/dockge && docker compose down".to_string(),
        ]
    );
    let mut h = host();
    h.initial_projects = vec![];
    assert!(ProjectManager::new(h).startup_stop_lines().is_empty());
}

#[test]
fn first_request_starts_project() {
    let mut m = ProjectManager::new(host());
    let (status, states, job) = m.add_and_start(project("gitea", 60000, None), 1000);
    assert_eq!(status, Status::Starting);
    assert!(states.is_empty());
    let job = job.expect("a start job");
    assert_eq!(job.name, "gitea");
    assert!(!job.already_exists);
    assert_eq!(job.custom_command, None);
    assert!(!status.is_ready());
}

#[test]
fn second_request_does_not_start_again() {
    let mut m = ProjectManager::new(host());
    let _ = m.add_and_start(project("gitea", 60000, None), 1000);
    let (status, _, job) = m.add_and_start(project("gitea", 60000, Some("bin/dc")), 2000);
    assert_eq!(status, Status::Starting);
    assert!(job.is_none());
    match m.monitor_step("gitea", 2000) {
        MonitorStep::Refresh { command, sleep } => {
            assert_eq!(command, "bin/dc");
            assert_eq!(sleep, 5000);
        }
        _ => panic!("expected a refresh"),
    }
}

#[test]
fn start_then_run_then_expire() {
    let mut m = ProjectManager::new(host());
    let (_, _, job) = m.add_and_start(project("gitea", 60000, None), 1000);
    let job = job.unwrap();
    assert!(m.finish_start(&job.name, job.already_exists));
    let (status, _, job) = m.add_and_start(project("gitea", 60000, None), 2000);
    assert_eq!(status, Status::Running);
    assert!(status.is_ready());
    assert!(job.is_none());
    match m.monitor_step("gitea", 61999) {
        MonitorStep::Refresh { command, .. } => assert_eq!(command, "docker compose"),
        _ => panic!("expected a refresh"),
    }
    match m.monitor_step("gitea", 62000) {
        MonitorStep::Stop { command } => assert_eq!(command, "docker compose"),
        _ => panic!("expected a stop"),
    }
    m.remove_project("gitea");
    assert!(matches!(m.monitor_step("gitea", 62000), MonitorStep::Finish));
    assert!(m.get_all(62000).is_empty());
}

#[test]
fn known_project_restart_keeps_monitor() {
    let mut m = ProjectManager::new(host());
    let (_, _, job) = m.add_and_start(project("gitea", 60000, None), 0);
    assert!(m.finish_start(&job.unwrap().name, false));
    assert!(m.mark_start_failed("gitea"));
    let (status, _, job) = m.add_and_start(project("gitea", 60000, None), 10);
    assert_eq!(status, Status::Starting);
    let job = job.unwrap();
    assert!(job.already_exists);
    assert!(!m.finish_start(&job.name, job.already_exists));
    assert!(!m.finish_start("unknown", false));
    assert!(!m.mark_start_failed("unknown"));
}

#[test]
fn monitoring_records_containers() {
    let mut m = ProjectManager::new(host());
    let _ = m.add_and_start(project("gitea", 60000, None), 0);
    assert!(m.record_statuses("gitea", vec![]));
    let all = m.get_all(5);
    assert_eq!(all[0].status, Status::Starting);
    assert!(!m.record_statuses("gitea", vec![running("a"), running("b")]));
    let (status, states, _) = m.add_and_start(project("gitea", 60000, None), 7);
    assert_eq!(status, Status::Running);
    assert_eq!(states.len(), 2);
    assert_eq!(states[1].name, "b");
    let mut stopped = running("c");
    stopped.running = false;
    assert!(m.record_statuses("gitea", vec![running("a"), stopped]));
    assert!(m.record_statuses("unknown", vec![]));
}

#[test]
fn project_list() {
    let mut m = ProjectManager::new(host());
    let _ = m.add_and_start(project("gitea", 60000, None), 100);
    let _ = m.add_and_start(project("dockge", 60000, None), 300);
    let mut all = m.get_all(1000);
    all.sort_by(|a, b| a.config.name.cmp(&b.config.name));
    assert_eq!(all.len(), 2);
    assert_eq!(all[0].config.name, "dockge");
    assert_eq!(all[0].last_invoke, 700);
    assert_eq!(all[1].config.name, "gitea");
    assert_eq!(all[1].last_invoke, 900);
    assert_eq!(all[1].status, Status::Starting);
    // a clock reading before the request counts as no time at all
    assert_eq!(m.get_all(50).iter().map(|p| p.last_invoke).max(), Some(0));
}

#[test]
fn host_command_line() {
    let m = ProjectManager::new(host());
    assert_eq!(m.exec_line("gitea", "docker compose down"), "cd /srv/compose/gitea && docker compose down");
    assert_eq!(m.ssh_config().ssh_host, "host:22");
}

#[test]
fn start_attempts() {
    assert!(!retry_start(0, true));
    assert!(retry_start(0, false));
    assert!(retry_start(1, false));
    assert!(!retry_start(2, false));
}

#[test]
fn default_project_settings() {
    let c = Config::default();
    assert_eq!(c.name, "");
    assert_eq!(c.session_duration, 0);
    assert_eq!(c.refresh_frequency, 0);
    assert_eq!(c.custom_command, None);
    let d = project("x", 1, Some("y")).copy();
    assert_eq!(d.custom_command.as_deref(), Some("y"));
    assert_eq!(d.display_name, "The x");
}

#[test]
fn request_after_stop_starts_afresh() {
    let mut m = ProjectManager::new(host());
    let (_, _, job) = m.add_and_start(project("gitea", 1000, None), 0);
    assert!(m.finish_start("gitea", job.unwrap().already_exists));
    assert!(matches!(m.monitor_step("gitea", 1000), MonitorStep::Stop { .. }));
    m.remove_project("gitea");
    let (status, states, job) = m.add_and_start(project("gitea", 1000, None), 2000);
    assert_eq!(status, Status::Starting);
    assert!(states.is_empty());
    assert!(!job.unwrap().already_exists);
}

#[test]
fn project_count_grows_only_for_new_names() {
    let mut m = ProjectManager::new(host());
    let _ = m.add_and_start(project("gitea", 1000, None), 0);
    assert_eq!(m.get_all(0).len(), 1);
    let _ = m.add_and_start(project("gitea", 2000, None), 5);
    assert_eq!(m.get_all(5).len(), 1);
    assert_eq!(m.get_all(5)[0].config.session_duration, 2000);
    let _ = m.add_and_start(project("dockge", 1000, None), 6);
    assert_eq!(m.get_all(6).len(), 2);
}
