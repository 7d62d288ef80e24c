use dock::{ContainerManager, DockError, LogView, RuntimeTag, Status, Storage};

fn manager() -> ContainerManager {
    ContainerManager::new(Storage::new("/home/u/.dock".to_string()))
}

fn status_of(m: &ContainerManager, name: &str) -> Status {
    m.storage().load_config(name).unwrap().status
}

#[test]
fn create_then_exists_and_duplicate_refused() {
    let mut m = manager();
    assert!(!m.storage().container_exists("web"));
    let plan = m.create("web", "app.py", true, Some(RuntimeTag::Python3)).unwrap();
    assert_eq!(plan.root, "/home/u/.dock/containers/web");
    assert!(m.storage().container_exists("web"));
    let again = m.create("web", "other.py", true, Some(RuntimeTag::Python2));
    assert_eq!(again.err(), Some(DockError::AlreadyExists));
    assert_eq!(m.storage().list_containers().len(), 1);
}

#[test]
fn create_missing_script_leaves_nothing() {
    let mut m = manager();
    let r = m.create("web", "missing.py", false, Some(RuntimeTag::Python3));
    assert_eq!(r.err(), Some(DockError::ScriptNotFound));
    assert!(!m.storage().container_exists("web"));
    assert!(m.storage().list_containers().is_empty());
}

#[test]
fn create_undetected_runtime_fails() {
    let mut m = manager();
    let r = m.create("web", "app.py", true, None);
    assert_eq!(r.err(), Some(DockError::DetectionError));
    assert!(!m.storage().container_exists("web"));
}

#[test]
fn create_assigns_distinct_ids() {
    let mut m = manager();
    m.create("a", "a.py", true, Some(RuntimeTag::Python3)).unwrap();
    m.create("b", "b.py", true, Some(RuntimeTag::Python3)).unwrap();
    let a = m.storage().load_config("a").unwrap();
    let b = m.storage().load_config("b").unwrap();
    assert_eq!(a.id.chars().count(), 36);
    assert_eq!(b.id.chars().count(), 36);
    assert_ne!(a.id, b.id);
}

#[test]
fn create_with_id_persists_stopped_config() {
    let mut m = manager();
    let plan = m
        .create_with_id("web", "app.py", true, Some(RuntimeTag::Python3), "id-1".to_string())
        .unwrap();
    assert_eq!(plan.record, "id-1\nweb\napp.py\nPython3\nstopped");
    let c = m.storage().load_config("web").unwrap();
    assert_eq!(c.python_version, "Python3");
    assert_eq!(c.status, Status::Stopped);
    assert_eq!(c.port_mapping, None);
}

#[test]
fn start_on_running_refused() {
    let mut m = manager();
    m.create("web", "app.py", true, Some(RuntimeTag::Python3)).unwrap();
    assert!(m.start("web", None, true).is_ok());
    let again = m.start("web", Some("1:2".to_string()), true);
    assert_eq!(again.err(), Some(DockError::AlreadyRunning));
    assert_eq!(m.storage().load_config("web").unwrap().port_mapping, None);
}

#[test]
fn start_missing_container_or_script() {
    let mut m = manager();
    assert_eq!(m.start("ghost", None, true).err(), Some(DockError::NotFound));
    m.create("web", "app.py", true, Some(RuntimeTag::Python2)).unwrap();
    assert_eq!(m.start("web", None, false).err(), Some(DockError::ScriptNotFound));
    assert_eq!(status_of(&m, "web"), Status::Stopped);
}

#[test]
fn start_plans_python2_launch_without_port() {
    let mut m = manager();
    m.create("job", "run.py", true, Some(RuntimeTag::Python2)).unwrap();
    let p = m.start("job", None, true).unwrap();
    assert_eq!(p.args, vec!["-r", "/home/u/.dock/containers/job", "python2", "run.py"]);
    assert_eq!(p.env, vec![("DOCK_CONTAINER".to_string(), "job".to_string())]);
}

#[test]
fn unknown_runtime_falls_back_to_python() {
    let mut m = manager();
    m.create("job", "run.py", true, Some(RuntimeTag::Unknown)).unwrap();
    let p = m.start("job", None, true).unwrap();
    assert_eq!(p.args[2], "python");
}

#[test]
fn stop_on_stopped_refused() {
    let mut m = manager();
    m.create("web", "app.py", true, Some(RuntimeTag::Python3)).unwrap();
    assert_eq!(m.stop("web").err(), Some(DockError::AlreadyStopped));
    m.start("web", None, true).unwrap();
    m.stop("web").unwrap();
    assert_eq!(m.stop("web").err(), Some(DockError::AlreadyStopped));
    assert_eq!(m.stop("ghost").err(), Some(DockError::NotFound));
}

#[test]
fn remove_running_refused_then_allowed_after_stop() {
    let mut m = manager();
    m.create("web", "app.py", true, Some(RuntimeTag::Python3)).unwrap();
    m.start("web", None, true).unwrap();
    assert_eq!(m.remove("web").err(), Some(DockError::CannotRemoveRunning));
    assert!(m.storage().container_exists("web"));
    m.stop("web").unwrap();
    let plan = m.remove("web").unwrap();
    assert_eq!(plan.name, "web");
    assert_eq!(plan.root, "/home/u/.dock/containers/web");
    assert_eq!(plan.log, "/home/u/.dock/logs/web.log");
    assert!(!m.storage().container_exists("web"));
    assert_eq!(m.remove("web").err(), Some(DockError::NotFound));
}

#[test]
fn logs_without_start_is_no_logs() {
    let mut m = manager();
    m.create("web", "app.py", true, Some(RuntimeTag::Python3)).unwrap();
    assert!(matches!(m.logs("web", None), LogView::NoLogs));
    match m.logs("web", Some("hello\n".to_string())) {
        LogView::Text(t) => assert_eq!(t, "hello\n"),
        LogView::NoLogs => panic!("expected text"),
    }
}

#[test]
fn web_scenario() {
    let mut m = manager();
    let created = m
        .create_with_id("web", "app.py", true, Some(RuntimeTag::Python3), "u-1".to_string())
        .unwrap();
    assert_eq!(created.record, "u-1\nweb\napp.py\nPython3\nstopped");
    assert_eq!(status_of(&m, "web"), Status::Stopped);

    let launch = m.start("web", Some("8080:80".to_string()), true).unwrap();
    let c = m.storage().load_config("web").unwrap();
    assert_eq!(c.status, Status::Running);
    assert_eq!(c.port_mapping, Some("8080:80".to_string()));
    assert_eq!(launch.record, "u-1\nweb\napp.py\nPython3\nrunning\n8080:80");
    assert_eq!(launch.program, "proot");
    assert_eq!(launch.args, vec!["-r", "/home/u/.dock/containers/web", "python3", "app.py"]);
    assert_eq!(
        launch.env,
        vec![
            ("DOCK_PORT_MAP".to_string(), "8080:80".to_string()),
            ("DOCK_CONTAINER".to_string(), "web".to_string()),
        ]
    );
    assert_eq!(launch.log, "/home/u/.dock/logs/web.log");

    let stop = m.stop("web").unwrap();
    assert_eq!(status_of(&m, "web"), Status::Stopped);
    assert_eq!(stop.program, "pkill");
    assert_eq!(stop.args, vec!["-f", "DOCK_CONTAINER=web"]);
    assert_eq!(stop.record, "u-1\nweb\napp.py\nPython3\nstopped\n8080:80");

    let removed = m.remove("web").unwrap();
    assert_eq!(removed.root, "/home/u/.dock/containers/web");
    assert!(!m.storage().container_exists("web"));
}

#[test]
fn enter_plans_shell_in_root() {
    let mut m = manager();
    assert_eq!(m.enter("web", true).err(), Some(DockError::NotFound));
    m.create("web", "app.py", true, Some(RuntimeTag::Python3)).unwrap();
    let p = m.enter("web", true).unwrap();
    assert_eq!(p.shell, "bash");
    assert_eq!(p.dir, "/home/u/.dock/containers/web");
    assert_eq!(
        p.env,
        vec![
            ("DOCK_CONTAINER".to_string(), "web".to_string()),
            ("DOCK_ROOT".to_string(), "/home/u/.dock/containers/web".to_string()),
        ]
    );
    assert_eq!(m.enter("web", false).unwrap().shell, "sh");
}

#[test]
fn list_empty_and_rows() {
    let mut m = manager();
    assert_eq!(m.list(), vec!["No containers found"]);
    m.create_with_id("web", "app.py", true, Some(RuntimeTag::Python3), "1".to_string()).unwrap();
    m.start("web", Some("8080:80".to_string()), true).unwrap();
    m.create_with_id("db", "db.py", true, Some(RuntimeTag::Python2), "2".to_string()).unwrap();
    let lines = m.list();
    assert_eq!(lines.len(), 4);
    assert_eq!(lines[0], format!("{:<20} {:<15} {:<20} {:<15}", "NAME", "STATUS", "PYTHON", "PORT"));
    assert_eq!(lines[1], "-".repeat(70));
    assert_eq!(lines[2], format!("{:<20} {:<15} {:<20} {:<15}", "web", "running", "Python3", "8080:80"));
    assert_eq!(lines[3], format!("{:<20} {:<15} {:<20} {:<15}", "db", "stopped", "Python2", "-"));
}

#[test]
fn list_keeps_long_names_whole() {
    let mut m = manager();
    let long = "a-container-name-longer-than-twenty";
    m.create_with_id(long, "x.py", true, Some(RuntimeTag::Python3), "1".to_string()).unwrap();
    let lines = m.list();
    assert_eq!(lines[2], format!("{} {:<15} {:<20} {:<15}", long, "stopped", "Python3", "-"));
}
