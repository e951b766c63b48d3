use std::io::Read;
use wizard::compose::{Service, ServiceConfig};
use wizard::images::{compressed_context, images_to_build, is_built_image};

fn service(name: &str, image: Option<&str>) -> Service {
    Service {
        name: name.to_string(),
        config: ServiceConfig {
            image: image.map(|s| s.to_string()),
            command: None,
            ports: None,
            volumes: None,
            environment: None,
            env_files: None,
        },
    }
}

#[test]
fn only_services_without_image_are_built() {
    let s = vec![service("web", None), service("db", Some("postgres")), service("worker", None)];
    assert_eq!(images_to_build(&s), vec!["web", "worker"]);
}

#[test]
fn built_image_is_found_by_latest_tag() {
    let tags = vec!["web:1.0".to_string(), "web:latest".to_string()];
    assert!(is_built_image(&tags, "web"));
    assert!(!is_built_image(&tags, "we"));
    assert!(!is_built_image(&vec![], "web"));
}

#[test]
fn context_is_gzip_of_archive() {
    let archive = b"some archive bytes".to_vec();
    let gz = compressed_context(&archive);
    assert_eq!(&gz[..2], &[0x1f, 0x8b]);
    assert_ne!(gz, archive);
    let mut back = vec![];
    flate2::read::GzDecoder::new(&gz[..]).read_to_end(&mut back).unwrap();
    assert_eq!(back, archive);
}
