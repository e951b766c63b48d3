use wizard::error::ComposeError;
use wizard::shorthand::{exposed_ports, mounts, parse_port, parse_volume, port_bindings, MountKind};

#[test]
fn port_shorthand_binds_all_host_addresses_over_tcp() {
    let b = parse_port("8080:8080").unwrap();
    assert_eq!(b.container_port, "8080/tcp");
    assert_eq!(b.host_ip, "0.0.0.0");
    assert_eq!(b.host_port, "8080");
}

#[test]
fn port_shorthand_with_different_sides() {
    let b = parse_port("5433:5432").unwrap();
    assert_eq!(b.container_port, "5432/tcp");
    assert_eq!(b.host_port, "5433");
}

#[test]
fn port_shorthand_without_colon_is_refused() {
    assert!(matches!(parse_port("8080"), Err(ComposeError::InvalidPort(p)) if p == "8080"));
}

#[test]
fn port_list_keeps_order_and_stops_at_first_bad() {
    let ok = port_bindings(&vec!["3000:3000".to_string(), "5432:5432".to_string()]).unwrap();
    assert_eq!(ok.len(), 2);
    assert_eq!(ok[1].container_port, "5432/tcp");
    let bad = port_bindings(&vec!["1:1".to_string(), "2".to_string(), "3".to_string()]);
    assert_eq!(bad.err(), Some(ComposeError::InvalidPort("2".to_string())));
}

#[test]
fn exposed_ports_use_first_segment() {
    let e = exposed_ports(&vec!["8080:80".to_string(), "3000:3000".to_string()]);
    assert_eq!(e, vec!["8080/tcp".to_string(), "3000/tcp".to_string()]);
}

#[test]
fn dot_volume_binds_working_directory() {
    let m = parse_volume(".:/app", "/home/dev/shop", &vec![]).unwrap();
    assert_eq!(m.source, "/home/dev/shop");
    assert_eq!(m.target, "/app");
    assert_eq!(m.kind, MountKind::Bind);
}

#[test]
fn declared_volume_is_managed() {
    let declared = vec!["db-data".to_string()];
    let m = parse_volume("db-data:/var/lib/postgresql/data", "/home/dev/shop", &declared).unwrap();
    assert_eq!(m.source, "db-data");
    assert_eq!(m.target, "/var/lib/postgresql/data");
    assert_eq!(m.kind, MountKind::Volume);
}

#[test]
fn undeclared_volume_name_is_a_bind() {
    let m = parse_volume("cache:/cache", "/w", &vec!["db-data".to_string()]).unwrap();
    assert_eq!(m.kind, MountKind::Bind);
    assert_eq!(m.source, "cache");
}

#[test]
fn volume_with_mode_keeps_only_the_path() {
    let m = parse_volume("./src:/app/src:ro", "/w", &vec![]).unwrap();
    assert_eq!(m.source, "./src");
    assert_eq!(m.target, "/app/src");
}

#[test]
fn volume_without_colon_is_refused() {
    assert_eq!(
        parse_volume("/data", "/w", &vec![]).err(),
        Some(ComposeError::InvalidVolume("/data".to_string()))
    );
    let r = mounts(&vec![".:/app".to_string(), "x".to_string()], "/w", &vec![]);
    assert_eq!(r.err(), Some(ComposeError::InvalidVolume("x".to_string())));
}
