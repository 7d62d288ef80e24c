use dock::{decode_fields, detect_runtime, encode_fields, ContainerConfig, DockError, RuntimeTag, Status, Storage};

fn sample(port: Option<&str>) -> ContainerConfig {
    ContainerConfig {
        id: "4f1c0a9e-0000-4000-8000-000000000001".to_string(),
        name: "web".to_string(),
        script: "dir\\app\nx.py".to_string(),
        python_version: "Python3".to_string(),
        status: Status::Running,
        port_mapping: port.map(|p| p.to_string()),
    }
}

fn same(a: &ContainerConfig, b: &ContainerConfig) -> bool {
    a.id == b.id
        && a.name == b.name
        && a.script == b.script
        && a.python_version == b.python_version
        && a.status == b.status
        && a.port_mapping == b.port_mapping
}

#[test]
fn record_round_trip_with_port() {
    let c = sample(Some("8080:80"));
    let back = ContainerConfig::from_record(&c.to_record()).unwrap();
    assert!(same(&c, &back));
}

#[test]
fn record_round_trip_without_port() {
    let c = sample(None);
    let back = ContainerConfig::from_record(&c.to_record()).unwrap();
    assert!(same(&c, &back));
    assert_eq!(back.port_mapping, None);
}

#[test]
fn record_round_trip_empty_port() {
    let c = sample(Some(""));
    let back = ContainerConfig::from_record(&c.to_record()).unwrap();
    assert_eq!(back.port_mapping, Some(String::new()));
}

#[test]
fn fields_are_escaped() {
    let fs = vec!["a\\b".to_string(), "c\nd".to_string(), String::new()];
    let text = encode_fields(&fs);
    assert_eq!(text, "a\\\\b\nc\\nd\n");
    assert_eq!(decode_fields(&text), Some(fs));
}

#[test]
fn malformed_records_rejected() {
    assert_eq!(decode_fields("a\\x"), None);
    assert_eq!(decode_fields("a\\"), None);
    assert!(ContainerConfig::from_record("a\nb\nc").is_none());
    assert!(ContainerConfig::from_record("i\nn\ns\nPython3\npaused").is_none());
}

#[test]
fn store_loads_records_and_refuses_duplicates() {
    let mut s = Storage::new("/d".to_string());
    let rec = sample(None).to_record();
    assert_eq!(s.load_record(&rec), Ok(()));
    assert!(s.container_exists("web"));
    assert_eq!(s.load_record(&rec), Err(DockError::IOError));
    assert_eq!(s.load_record("garbage\\q"), Err(DockError::IOError));
    assert_eq!(s.list_containers().len(), 1);
}

#[test]
fn store_save_overwrites_and_delete() {
    let mut s = Storage::new("/d".to_string());
    s.save_config(sample(None));
    s.save_config(sample(Some("1:2")));
    assert_eq!(s.list_containers().len(), 1);
    assert_eq!(s.load_config("web").unwrap().port_mapping, Some("1:2".to_string()));
    assert_eq!(s.delete_config("web"), Ok(()));
    assert_eq!(s.delete_config("web"), Err(DockError::NotFound));
    assert!(s.load_config("web").is_err());
    assert_eq!(s.filesystem_path("web"), "/d/containers/web");
    assert_eq!(s.logs_path("web"), "/d/logs/web.log");
}

#[test]
fn runtime_detected_from_interpreter_line() {
    assert_eq!(detect_runtime("#!/usr/bin/env python2"), RuntimeTag::Python2);
    assert_eq!(detect_runtime("#!/usr/bin/python3"), RuntimeTag::Python3);
    assert_eq!(detect_runtime("#!/bin/sh"), RuntimeTag::Unknown);
    assert_eq!(detect_runtime("print('python3')"), RuntimeTag::Unknown);
    assert_eq!(detect_runtime(""), RuntimeTag::Unknown);
}

#[test]
fn config_path_layout() {
    let s = Storage::new("/d".to_string());
    assert_eq!(s.config_path("web"), "/d/configs/web.conf");
}
