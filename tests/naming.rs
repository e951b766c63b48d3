use wizard::naming::{hash_text, last_path_segment, project_hash, Project};

#[test]
fn project_hash_of_known_path() {
    assert_eq!(project_hash("/home/dev/shop"), "e828acfc792e");
}

#[test]
fn project_hash_drops_leading_zero_of_each_byte() {
    // The fifth byte of this digest is 0x08, written as one digit.
    assert_eq!(project_hash("/srv/app"), "dae668e484f");
}

#[test]
fn project_hash_is_stable_across_calls() {
    let a = project_hash("/home/dev/shop");
    let b = project_hash("/home/dev/shop");
    assert_eq!(a, b);
    assert_ne!(a, project_hash("/home/dev/shop2"));
}

#[test]
fn project_hash_of_empty_path() {
    assert_eq!(project_hash(""), "e3b0c44298fc");
}

#[test]
fn hash_text_takes_six_bytes_without_padding() {
    let digest = vec![0x00, 0x0f, 0x10, 0xab, 0xff, 0x01, 0x99, 0x42];
    assert_eq!(hash_text(&digest), "0f10abff1");
}

#[test]
fn hash_text_of_short_digest() {
    assert_eq!(hash_text(&vec![0x12, 0x03]), "123");
    assert_eq!(hash_text(&vec![]), "");
}

#[test]
fn last_segment_of_paths() {
    assert_eq!(last_path_segment("/home/dev/shop"), "shop");
    assert_eq!(last_path_segment("shop"), "shop");
    assert_eq!(last_path_segment("/home/dev/"), "");
}

#[test]
fn project_from_dir() {
    let p = Project::from_dir("/home/dev/shop").unwrap();
    assert_eq!(p.name, "shop");
    assert_eq!(p.hash, "e828acfc792e");
    assert_eq!(p.dir, "/home/dev/shop");
}

#[test]
fn project_from_dir_without_name() {
    assert!(Project::from_dir("/").is_none());
    assert!(Project::from_dir("/home/..").is_none());
}

#[test]
fn container_and_network_names() {
    let p = Project::from_dir("/home/dev/shop").unwrap();
    assert_eq!(p.container_name("db"), "shop-db-e828acfc792e");
    assert_eq!(p.main_container_name(), "shop-shop-e828acfc792e");
    assert_eq!(p.network_name(), "shop-default");
    assert_eq!(p.user_name(), "shop-user");
    assert_eq!(p.aliases("db"), vec!["shop-db".to_string(), "db".to_string()]);
}

#[test]
fn different_services_get_different_container_names() {
    let p = Project::from_dir("/home/dev/shop").unwrap();
    let names = ["web", "db", "web-db", "cache"];
    for (i, a) in names.iter().enumerate() {
        for (j, b) in names.iter().enumerate() {
            if i != j {
                assert_ne!(p.container_name(a), p.container_name(b));
            }
        }
    }
}
