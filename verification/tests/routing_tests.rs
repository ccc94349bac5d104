use gprox::proxy_config::{GameMap, Games, MappingError, ServerMap};

fn one_host_config() -> GameMap {
    let mut table = ServerMap::new();
    table.insert("host-a".to_string(), ("10.0.0.1".to_string(), 25566));
    let mut config = GameMap::new("/etc/gprox/config.json".to_string());
    config.insert(Games::Minecraft, table);
    config
}

#[test]
fn route_returns_the_mapped_backend() {
    let config = one_host_config();
    let (host, port) = config
        .route(&Games::Minecraft, &"host-a".to_string())
        .unwrap();
    assert_eq!(host, "10.0.0.1");
    assert_eq!(port, 25566);
}

#[test]
fn route_absent_host_is_host_not_mapped() {
    let config = one_host_config();
    let e = config
        .route(&Games::Minecraft, &"host-b".to_string())
        .unwrap_err();
    assert!(matches!(e, MappingError::TargetError(_)));
}

#[test]
fn route_absent_family_is_family_not_configured() {
    let config = GameMap::new("/etc/gprox/config.json".to_string());
    let e = config
        .route(&Games::Minecraft, &"host-a".to_string())
        .unwrap_err();
    assert!(matches!(e, MappingError::GameError(_)));
}

#[test]
fn lookup_finds_exact_target() {
    let mut table = ServerMap::new();
    table.insert("localhost".to_string(), ("127.0.0.1".to_string(), 25565));
    let t = table.lookup(&"localhost".to_string()).unwrap();
    assert_eq!(t.0, "127.0.0.1");
    assert_eq!(t.1, 25565);
}

#[test]
fn lookup_absent_target_fails() {
    let mut table = ServerMap::new();
    table.insert("localhost".to_string(), ("127.0.0.1".to_string(), 25565));
    let e = table.lookup(&"elsewhere".to_string()).unwrap_err();
    assert!(matches!(e, MappingError::TargetError(_)));
}

#[test]
fn get_mapping_absent_family_fails() {
    let config = GameMap::new("/etc/gprox/config.json".to_string());
    let e = config.get_mapping(&Games::Minecraft).unwrap_err();
    assert!(matches!(e, MappingError::GameError(_)));
}

#[test]
fn get_mapping_returns_a_copy_that_routes_alike() {
    let config = one_host_config();
    let table = config.get_mapping(&Games::Minecraft).unwrap();
    let t = table.lookup(&"host-a".to_string()).unwrap();
    assert_eq!(t.0, "10.0.0.1");
    assert_eq!(t.1, 25566);
}

#[test]
fn get_games_lists_configured_families() {
    let config = one_host_config();
    let games = config.get_games();
    assert_eq!(games.len(), 1);
    assert!(matches!(games[0], Games::Minecraft));

    let empty = GameMap::new("/etc/gprox/config.json".to_string());
    assert_eq!(empty.get_games().len(), 0);
}

#[test]
fn empty_table_is_not_stored() {
    let mut config = GameMap::new("/etc/gprox/config.json".to_string());
    config.insert(Games::Minecraft, ServerMap::new());
    assert_eq!(config.get_games().len(), 0);
    assert!(matches!(
        config.route(&Games::Minecraft, &"host-a".to_string()),
        Err(MappingError::GameError(_))
    ));
}

#[test]
fn first_table_entry_wins_for_a_duplicate_host() {
    let mut table = ServerMap::new();
    table.insert("host-a".to_string(), ("10.0.0.1".to_string(), 1));
    table.insert("host-a".to_string(), ("10.0.0.2".to_string(), 2));
    let t = table.lookup(&"host-a".to_string()).unwrap();
    assert_eq!(t.0, "10.0.0.1");
    assert_eq!(t.1, 1);
}

#[test]
fn error_messages_name_what_is_missing() {
    let config = GameMap::new("/etc/gprox/config.json".to_string());
    match config.get_mapping(&Games::Minecraft).unwrap_err() {
        MappingError::GameError(m) => assert_eq!(m, "Mapping does not exist for Minecraft."),
        MappingError::TargetError(_) => panic!("wrong error kind"),
    }

    let mut table = ServerMap::new();
    table.insert("host-a".to_string(), ("10.0.0.1".to_string(), 1));
    match table.lookup(&"host-b".to_string()).unwrap_err() {
        MappingError::TargetError(m) => assert_eq!(m, "Target does not exist in mapping"),
        MappingError::GameError(_) => panic!("wrong error kind"),
    }
}

#[test]
fn family_port_is_the_well_known_port() {
    assert_eq!(Games::Minecraft.port(), 25565);
}

#[test]
fn host_names_are_case_sensitive() {
    let config = one_host_config();
    assert!(config.route(&Games::Minecraft, &"HOST-A".to_string()).is_err());
}
