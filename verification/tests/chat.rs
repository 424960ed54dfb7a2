use nikolaj::chat::{
    chat_command, debug_spawn_unit, enemy_spawn, get_army_composition, get_unit_from_string, starts_with, str_is,
    ChatAction,
};
use nikolaj::unit_types::{
    BANELING, HELLION_TANK, MARAUDER, MARINE, MEDIVAC, PROBE, ROACH, SIEGE_TANK, STALKER, VOID_RAY, ZERGLING,
};

#[test]
fn string_helpers() {
    assert!(str_is("tank", "tank"));
    assert!(!str_is("tank", "tanks"));
    assert!(starts_with("enemy roach", "enemy "));
    assert!(!starts_with("enemy", "enemy "));
}

#[test]
fn units_by_name() {
    assert_eq!(get_unit_from_string("hellbats"), Some(HELLION_TANK));
    assert_eq!(get_unit_from_string("tank"), Some(SIEGE_TANK));
    assert_eq!(get_unit_from_string("lings"), Some(ZERGLING));
    assert_eq!(get_unit_from_string("void"), Some(VOID_RAY));
    assert_eq!(get_unit_from_string("Marine"), None);
    assert_eq!(get_unit_from_string("dragoon"), None);
}

#[test]
fn armies_by_name() {
    assert_eq!(
        get_army_composition("enemy basic"),
        Some(vec![(MARINE, 4), (MARAUDER, 2), (SIEGE_TANK, 1), (MEDIVAC, 1)])
    );
    assert_eq!(get_army_composition("enemy bane bust"), Some(vec![(ZERGLING, 12), (BANELING, 8)]));
    assert_eq!(get_army_composition("enemy probes"), Some(vec![(PROBE, 12)]));
    assert_eq!(get_army_composition("basic"), None);
}

fn words(ws: &[&str]) -> Vec<String> {
    ws.iter().map(|w| w.to_string()).collect()
}

#[test]
fn enemy_spawns_read_unit_and_count() {
    match enemy_spawn(&words(&["enemy", "roach", "7"])) {
        ChatAction::Spawn { player, unit, count } => assert_eq!((player, unit, count), (2, ROACH, 7)),
        other => panic!("unexpected {:?}", other),
    }
    match enemy_spawn(&words(&["enemy", "roach", "+12"])) {
        ChatAction::Spawn { count, .. } => assert_eq!(count, 12),
        other => panic!("unexpected {:?}", other),
    }
    match enemy_spawn(&words(&["enemy", "roach", "lots"])) {
        ChatAction::Spawn { count, .. } => assert_eq!(count, 5),
        other => panic!("unexpected {:?}", other),
    }
    match enemy_spawn(&words(&["enemy", "roach", "99999999999"])) {
        ChatAction::Spawn { count, .. } => assert_eq!(count, 5),
        other => panic!("unexpected {:?}", other),
    }
    match enemy_spawn(&words(&["enemy", "dragoon"])) {
        ChatAction::UnknownUnit(n) => assert_eq!(n, "dragoon"),
        other => panic!("unexpected {:?}", other),
    }
    assert!(matches!(enemy_spawn(&words(&["enemy"])), ChatAction::Nothing));
}

#[test]
fn chat_commands() {
    match chat_command("enemy stalkers", 1) {
        ChatAction::SpawnArmy { player, army } => {
            assert_eq!(player, 2);
            assert_eq!(army, vec![(STALKER, 8)]);
        },
        other => panic!("unexpected {:?}", other),
    }
    match chat_command("enemy  zealot   3", 1) {
        ChatAction::UnknownUnit(_) | ChatAction::Nothing | ChatAction::SpawnArmy { .. } | ChatAction::Chat => {
            panic!("the words are split at any whitespace")
        },
        ChatAction::Spawn { player, count, .. } => assert_eq!((player, count), (2, 3)),
    }
    match chat_command("marines", 3) {
        ChatAction::Spawn { player, unit, count } => assert_eq!((player, unit, count), (3, MARINE, 1)),
        other => panic!("unexpected {:?}", other),
    }
    assert!(matches!(chat_command("gl hf", 3), ChatAction::Chat));
}

#[test]
fn messages_are_lowercased_first() {
    match debug_spawn_unit("ENEMY Roach Push", 1) {
        ChatAction::SpawnArmy { player, army } => {
            assert_eq!(player, 2);
            assert_eq!(army, vec![(ROACH, 12)]);
        },
        other => panic!("unexpected {:?}", other),
    }
    match debug_spawn_unit("Medivac", 4) {
        ChatAction::Spawn { player, unit, count } => assert_eq!((player, unit, count), (4, MEDIVAC, 1)),
        other => panic!("unexpected {:?}", other),
    }
}

#[test]
fn words_split_at_any_white_space() {
    match debug_spawn_unit("Enemy \t ROACH\u{3000}4 ", 1) {
        ChatAction::Spawn { player, unit, count } => assert_eq!((player, unit, count), (2, ROACH, 4)),
        other => panic!("unexpected {:?}", other),
    }
}
