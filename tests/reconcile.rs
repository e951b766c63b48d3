use wizard::reconcile::{
    container_names, container_state, display_name, network_missing, plan_down, plan_up, state_tone,
    stopped_containers, up_action, ContainerInfo, ContainerState, DownOp, DownTarget, StateTone, UpAction, UpRun,
};

fn info(names: &[&str], state: Option<&str>) -> ContainerInfo {
    ContainerInfo { names: names.iter().map(|s| s.to_string()).collect(), state: state.map(|s| s.to_string()) }
}

#[test]
fn state_from_listing() {
    let listing = vec![info(&["/shop-web-1"], Some("running")), info(&["/shop-db-1"], Some("exited"))];
    assert_eq!(container_state(&listing, "shop-web-1"), ContainerState::Running);
    assert_eq!(container_state(&listing, "shop-db-1"), ContainerState::Stopped);
    assert_eq!(container_state(&listing, "shop-cache-1"), ContainerState::Absent);
    assert_eq!(container_state(&listing, "shop-web"), ContainerState::Absent);
}

#[test]
fn actions_per_state() {
    assert_eq!(up_action(ContainerState::Running), UpAction::Skip);
    assert_eq!(up_action(ContainerState::Stopped), UpAction::Start);
    assert_eq!(up_action(ContainerState::Absent), UpAction::Create);
}

#[test]
fn second_up_starts_nothing() {
    let first = plan_up(&vec![ContainerState::Absent, ContainerState::Stopped, ContainerState::Running]);
    assert_eq!(first, vec![UpAction::Create, UpAction::Start, UpAction::Skip]);
    let second = plan_up(&vec![ContainerState::Running, ContainerState::Running, ContainerState::Running]);
    assert!(second.iter().all(|a| *a == UpAction::Skip));
}

#[test]
fn up_run_tracks_fresh_starts_only() {
    let mut run = UpRun::new();
    run.record_created("a".to_string(), true);
    run.record_created("b".to_string(), false);
    assert_eq!(run.started, vec!["a".to_string()]);
}

#[test]
fn network_lookup() {
    let nets = vec!["bridge".to_string(), "shop-default".to_string()];
    assert!(!network_missing(&nets, "shop-default"));
    assert!(network_missing(&nets, "other-default"));
}

fn names(ops: &[DownOp]) -> Vec<String> {
    ops.iter()
        .map(|o| match o {
            DownOp::Stop(n) => format!("stop {}", n),
            DownOp::Remove(n) => format!("remove {}", n),
            DownOp::RemoveNetwork(n) => format!("network {}", n),
        })
        .collect()
}

#[test]
fn down_stops_running_then_removes() {
    let t = vec![
        DownTarget { name: "a".to_string(), running: true },
        DownTarget { name: "b".to_string(), running: false },
    ];
    let ops = plan_down(&t, "shop-default", true);
    assert_eq!(names(&ops), vec!["stop a", "remove a", "remove b", "network shop-default"]);
}

#[test]
fn down_on_nothing_does_nothing() {
    assert!(plan_down(&vec![], "shop-default", false).is_empty());
}

#[test]
fn listed_names_lose_leading_slashes() {
    let listing = vec![info(&["/a", "//b"], None), info(&["c"], None)];
    assert_eq!(container_names(&listing), vec!["a", "b", "c"]);
}

#[test]
fn display_name_joins_names() {
    assert_eq!(display_name(&info(&["/a", "/b"], None)), "a, b");
    assert_eq!(display_name(&info(&[], None)), "");
}

#[test]
fn stopped_are_declared_but_not_shown() {
    let declared = vec!["x".to_string(), "y".to_string(), "z".to_string()];
    let shown = vec!["y".to_string()];
    assert_eq!(stopped_containers(&declared, &shown), vec!["x", "z"]);
}

#[test]
fn tones_of_states() {
    assert_eq!(state_tone("running"), StateTone::Good);
    assert_eq!(state_tone("paused"), StateTone::Caution);
    assert_eq!(state_tone("exited"), StateTone::Bad);
    assert_eq!(state_tone("created"), StateTone::Plain);
}
