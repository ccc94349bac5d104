use gprox::config_change::{classify_watch_event, FsEventKind, WatchDecision};
use gprox::controller::{ControllerEvents, ControllerModel};
use gprox::proxy_config::{GameMap, Games, ServerMap};

fn config_with(host: &str, backend: &str, port: u16) -> GameMap {
    let mut table = ServerMap::new();
    table.insert(host.to_string(), (backend.to_string(), port));
    let mut config = GameMap::new("/etc/gprox/config.json".to_string());
    config.insert(Games::Minecraft, table);
    config
}

#[test]
fn hot_reload_keeps_spliced_connections_and_routes_against_new_config() {
    let v1 = config_with("host-a", "10.0.0.1", 25566);
    let mut controller = ControllerModel::new(v1);
    controller.start_listener(Games::Minecraft);
    controller.accept_connection(1);
    controller.accept_connection(2);

    let v2 = config_with("host-c", "10.0.0.9", 25570);
    controller.apply_config_change(v2);

    // Already-spliced connections are untouched by the swap.
    assert_eq!(controller.spliced, vec![1, 2]);
    // The accept loops were drained; the caller rebinds from the new config.
    assert!(controller.active.is_empty());
    assert!(!controller.stopped);

    // A connection accepted after the swap routes against v2.
    let routed = controller
        .config
        .route(&Games::Minecraft, &"host-c".to_string())
        .unwrap();
    assert_eq!(routed.0, "10.0.0.9");
    assert_eq!(routed.1, 25570);
    assert!(controller
        .config
        .route(&Games::Minecraft, &"host-a".to_string())
        .is_err());
}

#[test]
fn reloading_unchanged_config_drops_nothing_and_routes_alike() {
    let v1 = config_with("host-a", "10.0.0.1", 25566);
    let before = v1
        .route(&Games::Minecraft, &"host-a".to_string())
        .unwrap();

    let mut controller = ControllerModel::new(v1);
    controller.start_listener(Games::Minecraft);
    controller.accept_connection(7);

    // The file was rewritten with identical content.
    let same = config_with("host-a", "10.0.0.1", 25566);
    controller.apply_config_change(same);

    assert_eq!(controller.spliced, vec![7]);
    let after = controller
        .config
        .route(&Games::Minecraft, &"host-a".to_string())
        .unwrap();
    assert_eq!(after, before);
}

#[test]
fn shutdown_retires_listeners_but_not_connections() {
    let v1 = config_with("host-a", "10.0.0.1", 25566);
    let mut controller = ControllerModel::new(v1);
    controller.start_listener(Games::Minecraft);
    controller.accept_connection(3);
    controller.apply_shutdown();
    assert!(controller.stopped);
    assert!(controller.active.is_empty());
    assert_eq!(controller.spliced, vec![3]);
}

#[test]
fn start_listener_is_idempotent_per_family() {
    let v1 = config_with("host-a", "10.0.0.1", 25566);
    let mut controller = ControllerModel::new(v1);
    controller.start_listener(Games::Minecraft);
    controller.start_listener(Games::Minecraft);
    assert_eq!(controller.active.len(), 1);
}

#[test]
fn controller_events_are_a_closed_pair() {
    assert_ne!(ControllerEvents::ConfigUpdate, ControllerEvents::Exit);
}

#[test]
fn only_content_changes_of_the_config_file_reload() {
    assert_eq!(
        classify_watch_event(true, &FsEventKind::ModifyData),
        WatchDecision::Reload
    );
    assert_eq!(
        classify_watch_event(true, &FsEventKind::ModifyAny),
        WatchDecision::Reload
    );
    assert_eq!(
        classify_watch_event(true, &FsEventKind::ModifyOther),
        WatchDecision::Reload
    );
    assert_eq!(
        classify_watch_event(true, &FsEventKind::ModifyName),
        WatchDecision::Ignore
    );
    assert_eq!(
        classify_watch_event(true, &FsEventKind::ModifyMetadata),
        WatchDecision::Ignore
    );
    assert_eq!(
        classify_watch_event(true, &FsEventKind::Remove),
        WatchDecision::WarnRemoved
    );
    assert_eq!(
        classify_watch_event(true, &FsEventKind::Other),
        WatchDecision::Ignore
    );
    assert_eq!(
        classify_watch_event(false, &FsEventKind::ModifyData),
        WatchDecision::Ignore
    );
}
