use wizard::command::ComposeCommand;
use wizard::compose::{document_services, plan_container, service_container_names, ComposeDoc, ServiceConfig, ServiceDecl};
use wizard::environment::EnvPair;
use wizard::error::ComposeError;
use wizard::naming::Project;
use wizard::shorthand::MountKind;

fn config(image: Option<&str>) -> ServiceConfig {
    ServiceConfig {
        image: image.map(|s| s.to_string()),
        command: None,
        ports: None,
        volumes: None,
        environment: None,
        env_files: None,
    }
}

fn decl(name: &str, c: Option<ServiceConfig>) -> ServiceDecl {
    ServiceDecl { name: name.to_string(), config: c }
}

#[test]
fn services_in_document_order() {
    let doc = ComposeDoc {
        supported_version: true,
        services: Some(vec![decl("web", Some(config(None))), decl("db", Some(config(Some("postgres:latest"))))]),
        volumes: vec![],
    };
    let s = document_services(doc).unwrap();
    assert_eq!(s.len(), 2);
    assert_eq!(s[0].name, "web");
    assert_eq!(s[1].name, "db");
    assert_eq!(s[1].config.image.as_deref(), Some("postgres:latest"));
}

#[test]
fn old_schema_version_is_refused() {
    let doc = ComposeDoc { supported_version: false, services: None, volumes: vec![] };
    assert_eq!(document_services(doc).err(), Some(ComposeError::UnsupportedVersion));
}

#[test]
fn missing_services_section_is_refused() {
    let doc = ComposeDoc { supported_version: true, services: None, volumes: vec![] };
    assert_eq!(document_services(doc).err(), Some(ComposeError::MissingServices));
}

#[test]
fn first_service_without_config_is_named() {
    let doc = ComposeDoc {
        supported_version: true,
        services: Some(vec![decl("web", Some(config(None))), decl("db", None), decl("cache", None)]),
        volumes: vec![],
    };
    assert_eq!(document_services(doc).err(), Some(ComposeError::MissingServiceConfig("db".to_string())));
}

#[test]
fn container_names_of_services() {
    let p = Project::from_dir("/home/dev/shop").unwrap();
    let doc = ComposeDoc {
        supported_version: true,
        services: Some(vec![decl("shop", Some(config(None))), decl("db", Some(config(Some("postgres"))))]),
        volumes: vec![],
    };
    let s = document_services(doc).unwrap();
    assert_eq!(
        service_container_names(&p, &s),
        vec!["shop-shop-e828acfc792e".to_string(), "shop-db-e828acfc792e".to_string()]
    );
}

#[test]
fn plan_of_built_service() {
    let p = Project::from_dir("/home/dev/shop").unwrap();
    let mut c = config(None);
    c.command = Some(ComposeCommand::Text("bundle exec rails s".to_string()));
    c.ports = Some(vec!["3000:3000".to_string()]);
    c.volumes = Some(vec![".:/app".to_string()]);
    c.env_files = Some(vec![".env".to_string()]);
    let svc = document_services(ComposeDoc {
        supported_version: true,
        services: Some(vec![decl("shop", Some(c))]),
        volumes: vec![],
    })
    .unwrap()
    .remove(0);
    let plan = plan_container(&p, &svc, &vec![], &vec!["RAILS_ENV=development\n".to_string()]).unwrap();
    assert_eq!(plan.name, "shop-shop-e828acfc792e");
    assert_eq!(plan.image, "shop");
    assert!(plan.build);
    assert_eq!(plan.user.as_deref(), Some("shop-user"));
    assert_eq!(plan.cmd, Some(vec!["bundle".to_string(), "exec".to_string(), "rails".to_string(), "s".to_string()]));
    let b = plan.port_bindings.unwrap();
    assert_eq!(b[0].container_port, "3000/tcp");
    assert_eq!(b[0].host_ip, "0.0.0.0");
    assert_eq!(plan.exposed_ports, vec!["3000/tcp".to_string()]);
    let m = plan.mounts.unwrap();
    assert_eq!(m[0].source, "/home/dev/shop");
    assert_eq!(m[0].kind, MountKind::Bind);
    assert_eq!(plan.env, Some(vec!["RAILS_ENV=development".to_string()]));
    assert_eq!(plan.network, "shop-default");
    assert_eq!(plan.aliases, vec!["shop-shop".to_string(), "shop".to_string()]);
}

#[test]
fn plan_of_image_service() {
    let p = Project::from_dir("/home/dev/shop").unwrap();
    let mut c = config(Some("postgres:latest"));
    c.volumes = Some(vec!["db-data:/var/lib/postgresql/data".to_string()]);
    c.environment = Some(vec![EnvPair { key: "POSTGRES_USER".to_string(), value: Some("postgres".to_string()) }]);
    let svc = wizard::compose::Service { name: "db".to_string(), config: c };
    let plan = plan_container(&p, &svc, &vec!["db-data".to_string()], &vec![]).unwrap();
    assert_eq!(plan.image, "postgres:latest");
    assert!(!plan.build);
    assert_eq!(plan.user, None);
    assert_eq!(plan.cmd, None);
    assert!(plan.port_bindings.is_none());
    assert!(plan.exposed_ports.is_empty());
    let m = plan.mounts.unwrap();
    assert_eq!(m[0].kind, MountKind::Volume);
    assert_eq!(m[0].source, "db-data");
    assert_eq!(plan.env, Some(vec!["POSTGRES_USER=postgres".to_string()]));
}

#[test]
fn plan_errors_in_order_of_precedence() {
    let p = Project::from_dir("/w/app").unwrap();
    let mut c = config(Some("x"));
    c.volumes = Some(vec!["bad".to_string()]);
    c.ports = Some(vec!["80".to_string()]);
    c.command = Some(ComposeCommand::Args(vec![]));
    let svc = wizard::compose::Service { name: "s".to_string(), config: c };
    assert_eq!(plan_container(&p, &svc, &vec![], &vec![]).err(), Some(ComposeError::InvalidVolume("bad".to_string())));
    let mut c = config(Some("x"));
    c.ports = Some(vec!["80".to_string()]);
    c.command = Some(ComposeCommand::Args(vec![]));
    let svc = wizard::compose::Service { name: "s".to_string(), config: c };
    assert_eq!(plan_container(&p, &svc, &vec![], &vec![]).err(), Some(ComposeError::InvalidPort("80".to_string())));
    let mut c = config(Some("x"));
    c.command = Some(ComposeCommand::Args(vec![]));
    let svc = wizard::compose::Service { name: "s".to_string(), config: c };
    assert_eq!(plan_container(&p, &svc, &vec![], &vec![]).err(), Some(ComposeError::UnsupportedCommand("s".to_string())));
}
