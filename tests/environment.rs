use wizard::environment::{environment, file_assignments, lines, EnvPair};

#[test]
fn inline_pairs_then_file_assignments() {
    let pairs = Some(vec![
        EnvPair { key: "POSTGRES_USER".to_string(), value: Some("postgres".to_string()) },
        EnvPair { key: "EMPTY".to_string(), value: None },
    ]);
    let files = vec!["A=1\n# comment\nB=x=y\r\n\nC\n".to_string()];
    let env = environment(&pairs, &files).unwrap();
    assert_eq!(
        env,
        vec![
            "POSTGRES_USER=postgres".to_string(),
            "EMPTY=".to_string(),
            "A=1".to_string(),
            "B=x=y".to_string(),
        ]
    );
}

#[test]
fn no_environment_at_all() {
    assert_eq!(environment(&None, &vec![]), None);
    assert_eq!(environment(&Some(vec![]), &vec!["no assignment\n".to_string()]), None);
}

#[test]
fn lines_split_like_str_lines() {
    assert_eq!(lines("a\r\nb\n\nc"), vec!["a", "b", "", "c"]);
    assert_eq!(lines("a\n"), vec!["a"]);
    assert!(lines("").is_empty());
}

#[test]
fn assignments_of_one_file() {
    assert_eq!(file_assignments("X=1\nY\nZ=\n"), vec!["X=1", "Z="]);
}
